use anyn2n::servers::{ServerEntry, ServerManager};

fn entry(id: &str, name: &str, created_at: u64) -> ServerEntry {
    ServerEntry {
        id: id.to_string(),
        name: name.to_string(),
        ip: "1.2.3.4".to_string(),
        port: 7654,
        default_group: "g".to_string(),
        created_at,
    }
}

fn names(m: &ServerManager) -> Vec<String> {
    m.list().into_iter().map(|e| e.name).collect()
}

#[test]
fn save_new_entry_gets_id_and_time() {
    let mut m = ServerManager::new(vec![entry("a", "A", 10)]);
    let saved = m.save_at(entry("", "N", 0), 50, "fresh".to_string());
    assert_eq!(saved.id, "fresh");
    assert_eq!(saved.created_at, 50);
    assert_eq!(names(&m), vec!["N", "A"]);
}

#[test]
fn update_keeps_creation_time() {
    let mut m = ServerManager::new(vec![entry("a", "A", 10), entry("b", "B", 30)]);
    let saved = m.save_at(entry("a", "A2", 999), 50, String::new());
    assert_eq!(saved.created_at, 10);
    assert_eq!(names(&m), vec!["B", "A2"]);
    let saved = m.save_at(entry("zz", "Z", 0), 20, String::new());
    assert_eq!(saved.created_at, 20);
    assert_eq!(names(&m), vec!["B", "Z", "A2"]);
}

#[test]
fn sort_is_stable_for_equal_times() {
    let mut m = ServerManager::new(vec![entry("a", "A", 5), entry("b", "B", 5), entry("c", "C", 9)]);
    m.save_at(entry("d", "D", 0), 5, String::new());
    assert_eq!(names(&m), vec!["C", "A", "B", "D"]);
}

#[test]
fn save_replaces_duplicates() {
    let mut m = ServerManager::new(vec![entry("a", "A1", 3), entry("a", "A2", 4)]);
    m.save_at(entry("a", "A3", 0), 9, String::new());
    assert_eq!(names(&m), vec!["A3"]);
    assert_eq!(m.list()[0].created_at, 3);
}

#[test]
fn save_with_clock_and_uuid() {
    let mut m = ServerManager::new(Vec::new());
    let saved = m.save(entry("", "N", 0));
    assert_eq!(saved.id.len(), 36);
    assert_eq!(&saved.id[14..15], "4");
    assert!(saved.created_at > 1_600_000_000);
    let again = m.save(entry(&saved.id, "N2", 0));
    assert_eq!(again.created_at, saved.created_at);
    assert_eq!(m.list().len(), 1);
}

#[test]
fn delete_removes_all_with_id() {
    let mut m = ServerManager::new(vec![entry("a", "A", 1), entry("b", "B", 2), entry("a", "A2", 3)]);
    m.delete("a");
    assert_eq!(names(&m), vec!["B"]);
    m.delete("missing");
    assert_eq!(names(&m), vec!["B"]);
}

#[test]
fn delete_twice_changes_nothing_more() {
    let mut m = ServerManager::new(vec![entry("a", "A", 1), entry("b", "B", 2), entry("c", "C", 3)]);
    m.delete("b");
    let after_first = names(&m);
    assert_eq!(after_first, vec!["A", "C"]);
    m.delete("b");
    assert_eq!(names(&m), after_first);
}
