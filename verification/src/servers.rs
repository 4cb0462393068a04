//! The saved supernode servers: saving (new or updated), deleting and
//! listing, newest first.

use vstd::prelude::*;
use crate::trusted::{new_uuid_v4, unix_time_secs, uuid_v4_text};

verus! {

/// A saved server.
pub struct ServerEntry {
    pub id: String,
    pub name: String,
    pub ip: String,
    pub port: u16,
    pub default_group: String,
    /// Unix seconds when the entry was first saved.
    pub created_at: u64,
}

pub struct ServerEntryView {
    pub id: Seq<char>,
    pub name: Seq<char>,
    pub ip: Seq<char>,
    pub port: u16,
    pub default_group: Seq<char>,
    pub created_at: u64,
}

impl View for ServerEntry {
    type V = ServerEntryView;

    open spec fn view(&self) -> ServerEntryView {
        ServerEntryView {
            id: self.id@,
            name: self.name@,
            ip: self.ip@,
            port: self.port,
            default_group: self.default_group@,
            created_at: self.created_at,
        }
    }
}

impl Clone for ServerEntry {
    fn clone(&self) -> (res: Self)
        ensures
            res@ == self@,
    {
        ServerEntry {
            id: self.id.clone(),
            name: self.name.clone(),
            ip: self.ip.clone(),
            port: self.port,
            default_group: self.default_group.clone(),
            created_at: self.created_at,
        }
    }
}

pub open spec fn entry_views(s: Seq<ServerEntry>) -> Seq<ServerEntryView> {
    s.map_values(|e: ServerEntry| e@)
}

// ---------------------------------------------------------------------------
// Spec model
// ---------------------------------------------------------------------------

/// Where `key` goes in a list sorted newest first: before the first entry
/// that is older, after all that are as new or newer.
pub open spec fn slot_from(s: Seq<ServerEntryView>, key: u64, i: int) -> int
    decreases s.len() - i,
{
    if i < 0 || i >= s.len() {
        s.len() as int
    } else if s[i].created_at < key {
        i
    } else {
        slot_from(s, key, i + 1)
    }
}

pub open spec fn insert_newest_first(s: Seq<ServerEntryView>, e: ServerEntryView) -> Seq<
    ServerEntryView,
> {
    s.insert(slot_from(s, e.created_at, 0), e)
}

/// The stable sort newest first: insert the entries one by one, each after
/// those as new as it.
pub open spec fn sort_newest_first(s: Seq<ServerEntryView>) -> Seq<ServerEntryView>
    decreases s.len(),
{
    if s.len() == 0 {
        s
    } else {
        insert_newest_first(sort_newest_first(s.drop_last()), s.last())
    }
}

/// The entries whose id is not `id`, in order.
pub open spec fn without_id(s: Seq<ServerEntryView>, id: Seq<char>) -> Seq<ServerEntryView>
    decreases s.len(),
{
    if s.len() == 0 {
        s
    } else {
        let r = without_id(s.drop_last(), id);
        if s.last().id == id {
            r
        } else {
            r.push(s.last())
        }
    }
}

/// The first entry with id `id`, from position `i`.
pub open spec fn first_with_id(s: Seq<ServerEntryView>, id: Seq<char>, i: int) -> Option<int>
    decreases s.len() - i,
{
    if i < 0 || i >= s.len() {
        None
    } else if s[i].id == id {
        Some(i)
    } else {
        first_with_id(s, id, i + 1)
    }
}

/// The entry as it is saved: a new entry (empty id) gets `fresh_id` and is
/// created `now`; an update keeps the creation time of the stored entry
/// with its id, or is created `now` if there is none.
pub open spec fn saved_entry(
    store: Seq<ServerEntryView>,
    entry: ServerEntryView,
    now: u64,
    fresh_id: Seq<char>,
) -> ServerEntryView {
    if entry.id.len() == 0 {
        ServerEntryView { id: fresh_id, created_at: now, ..entry }
    } else {
        match first_with_id(store, entry.id, 0) {
            Some(i) => ServerEntryView { created_at: store[i].created_at, ..entry },
            None => ServerEntryView { created_at: now, ..entry },
        }
    }
}

/// The store after saving: entries with the saved id replaced by the saved
/// entry, then sorted newest first.
pub open spec fn saved_store(
    store: Seq<ServerEntryView>,
    entry: ServerEntryView,
    now: u64,
    fresh_id: Seq<char>,
) -> Seq<ServerEntryView> {
    let e = saved_entry(store, entry, now, fresh_id);
    sort_newest_first(without_id(store, e.id).push(e))
}

pub open spec fn newest_first(s: Seq<ServerEntryView>) -> bool {
    forall|i: int, j: int| 0 <= i < j < s.len() ==> s[i].created_at >= s[j].created_at
}

pub open spec fn count_id(s: Seq<ServerEntryView>, id: Seq<char>) -> nat
    decreases s.len(),
{
    if s.len() == 0 {
        0
    } else {
        count_id(s.drop_last(), id) + if s.last().id == id {
            1nat
        } else {
            0nat
        }
    }
}

// ---------------------------------------------------------------------------
// The store
// ---------------------------------------------------------------------------

/// The saved servers.
pub struct ServerManager {
    servers: Vec<ServerEntry>,
}

impl View for ServerManager {
    type V = Seq<ServerEntryView>;

    closed spec fn view(&self) -> Seq<ServerEntryView> {
        entry_views(self.servers@)
    }
}

proof fn lemma_slot_bounds(s: Seq<ServerEntryView>, key: u64, i: int)
    requires
        0 <= i <= s.len(),
    ensures
        i <= slot_from(s, key, i) <= s.len(),
        forall|j: int| i <= j < slot_from(s, key, i) ==> s[j].created_at >= key,
        slot_from(s, key, i) < s.len() ==> s[slot_from(s, key, i)].created_at < key,
    decreases s.len() - i,
{
    if i < s.len() && s[i].created_at >= key {
        lemma_slot_bounds(s, key, i + 1);
    }
}

fn slot_of(s: &Vec<ServerEntry>, key: u64) -> (res: usize)
    ensures
        res as int == slot_from(entry_views(s@), key, 0),
        res <= s@.len(),
{
    proof {
        lemma_slot_bounds(entry_views(s@), key, 0);
    }
    let n = s.len();
    let mut i: usize = 0;
    while i < n
        invariant
            n == s@.len(),
            0 <= i <= n,
            slot_from(entry_views(s@), key, 0) == slot_from(entry_views(s@), key, i as int),
        decreases n - i,
    {
        if s[i].created_at < key {
            return i;
        }
        i += 1;
    }
    i
}

/// `s` sorted newest first, stably.
fn sort_entries(s: Vec<ServerEntry>) -> (res: Vec<ServerEntry>)
    ensures
        entry_views(res@) == sort_newest_first(entry_views(s@)),
{
    let ghost orig = entry_views(s@);
    let mut rest = s;
    let mut out: Vec<ServerEntry> = Vec::new();
    let ghost mut k: int = 0;
    while rest.len() > 0
        invariant
            0 <= k <= orig.len(),
            entry_views(rest@) == orig.skip(k),
            rest@.len() == orig.len() - k,
            entry_views(out@) == sort_newest_first(orig.take(k)),
        decreases rest@.len(),
    {
        let ghost old_rest = rest@;
        let e = rest.remove(0);
        proof {
            assert(orig.skip(k)[0] == e@);
            assert forall|j: int| 0 <= j < rest@.len() implies #[trigger] entry_views(rest@)[j]
                == orig.skip(k + 1)[j] by {
                assert(rest@[j] == old_rest[j + 1]);
                assert(entry_views(old_rest)[j + 1] == orig.skip(k)[j + 1]);
            }
            assert(entry_views(rest@) =~= orig.skip(k + 1));
            assert(orig.take(k + 1).drop_last() =~= orig.take(k));
            assert(orig.take(k + 1).last() == e@);
        }
        let pos = slot_of(&out, e.created_at);
        let ghost before = entry_views(out@);
        out.insert(pos, e);
        proof {
            assert(entry_views(out@) =~= before.insert(pos as int, e@));
            k = k + 1;
        }
    }
    assert(orig.take(k) =~= orig);
    out
}

/// `s` without the entries whose id is `id`, in order.
fn remove_id(s: Vec<ServerEntry>, id: &String) -> (res: Vec<ServerEntry>)
    ensures
        entry_views(res@) == without_id(entry_views(s@), id@),
{
    let ghost orig = entry_views(s@);
    let mut rest = s;
    let mut out: Vec<ServerEntry> = Vec::new();
    let ghost mut k: int = 0;
    while rest.len() > 0
        invariant
            0 <= k <= orig.len(),
            entry_views(rest@) == orig.skip(k),
            rest@.len() == orig.len() - k,
            entry_views(out@) == without_id(orig.take(k), id@),
        decreases rest@.len(),
    {
        let ghost old_rest = rest@;
        let e = rest.remove(0);
        proof {
            assert(orig.skip(k)[0] == e@);
            assert forall|j: int| 0 <= j < rest@.len() implies #[trigger] entry_views(rest@)[j]
                == orig.skip(k + 1)[j] by {
                assert(rest@[j] == old_rest[j + 1]);
                assert(entry_views(old_rest)[j + 1] == orig.skip(k)[j + 1]);
            }
            assert(entry_views(rest@) =~= orig.skip(k + 1));
            assert(orig.take(k + 1).drop_last() =~= orig.take(k));
            assert(orig.take(k + 1).last() == e@);
        }
        if e.id != *id {
            let ghost before = entry_views(out@);
            out.push(e);
            assert(entry_views(out@) =~= before.push(e@));
        }
        proof {
            k = k + 1;
        }
    }
    assert(orig.take(k) =~= orig);
    out
}

impl ServerManager {
    /// A store holding `servers`, as loaded.
    pub fn new(servers: Vec<ServerEntry>) -> (m: Self)
        ensures
            m@ == entry_views(servers@),
    {
        ServerManager { servers }
    }

    fn created_at_of(&self, id: &String) -> (res: Option<u64>)
        ensures
            match first_with_id(self@, id@, 0) {
                Some(i) => 0 <= i < self@.len() && res == Some(self@[i].created_at),
                None => res is None,
            },
    {
        let n = self.servers.len();
        for i in 0..n
            invariant
                n == self.servers@.len(),
                first_with_id(self@, id@, 0) == first_with_id(self@, id@, i as int),
        {
            if self.servers[i].id == *id {
                return Some(self.servers[i].created_at);
            }
        }
        None
    }

    /// Saves `entry` at time `now`: a new entry (empty id) takes `fresh_id`;
    /// returns the entry as saved. The caller reads the clock and makes the id.
    pub fn save_at(&mut self, entry: ServerEntry, now: u64, fresh_id: String) -> (res: ServerEntry)
        ensures
            res@ == saved_entry(old(self)@, entry@, now, fresh_id@),
            final(self)@ == saved_store(old(self)@, entry@, now, fresh_id@),
    {
        let ghost e0 = entry@;
        let mut entry = entry;
        if entry.id.as_str().is_empty() {
            entry.id = fresh_id;
            entry.created_at = now;
            assert(e0.id.len() == 0);
        } else {
            assert(e0.id.len() != 0);
            entry.created_at = match self.created_at_of(&entry.id) {
                Some(t) => t,
                None => now,
            };
        }
        assert(entry@ == saved_entry(self@, e0, now, fresh_id@));
        let mut servers: Vec<ServerEntry> = Vec::new();
        std::mem::swap(&mut servers, &mut self.servers);
        let mut kept = remove_id(servers, &entry.id);
        let saved = entry.clone();
        let ghost before = entry_views(kept@);
        kept.push(entry);
        assert(entry_views(kept@) =~= before.push(saved@));
        self.servers = sort_entries(kept);
        saved
    }

    /// Saves `entry` (new when its id is empty, else an update) and returns
    /// it as saved; the time is the clock's, a new id a random UUID.
    pub fn save(&mut self, entry: ServerEntry) -> (res: ServerEntry)
        ensures
            exists|now: u64, fresh_id: Seq<char>|
                (entry@.id.len() == 0 ==> uuid_v4_text(fresh_id)) && res@ == saved_entry(
                    old(self)@,
                    entry@,
                    now,
                    fresh_id,
                ) && final(self)@ == saved_store(old(self)@, entry@, now, fresh_id),
    {
        let now = unix_time_secs();
        let fresh_id = if entry.id.as_str().is_empty() {
            new_uuid_v4()
        } else {
            String::new()
        };
        self.save_at(entry, now, fresh_id)
    }

    /// Removes the entries with id `id`.
    pub fn delete(&mut self, id: &str)
        ensures
            final(self)@ == without_id(old(self)@, id@),
    {
        let key = id.to_string();
        let mut servers: Vec<ServerEntry> = Vec::new();
        std::mem::swap(&mut servers, &mut self.servers);
        self.servers = remove_id(servers, &key);
    }

    /// All saved servers, in store order.
    pub fn list(&self) -> (res: Vec<ServerEntry>)
        ensures
            entry_views(res@) == self@,
    {
        let mut res: Vec<ServerEntry> = Vec::new();
        let n = self.servers.len();
        for i in 0..n
            invariant
                n == self.servers@.len(),
                entry_views(res@) == self@.take(i as int),
        {
            let e = self.servers[i].clone();
            let ghost before = entry_views(res@);
            res.push(e);
            assert(entry_views(res@) =~= before.push(self@[i as int]));
            assert(self@.take(i + 1) =~= self@.take(i as int).push(self@[i as int]));
        }
        assert(self@.take(n as int) =~= self@);
        res
    }
}

// ---------------------------------------------------------------------------
// Laws
// ---------------------------------------------------------------------------

proof fn lemma_insert_to_multiset(s: Seq<ServerEntryView>, p: int, e: ServerEntryView)
    requires
        0 <= p <= s.len(),
    ensures
        s.insert(p, e).to_multiset() =~= s.to_multiset().insert(e),
{
    broadcast use vstd::seq_lib::group_to_multiset_ensures;

    let t = s.insert(p, e);
    assert(t.remove(p) =~= s);
    assert(t[p] == e);
    assert(t.remove(p).to_multiset() =~= t.to_multiset().remove(e));
    assert(t.to_multiset().count(e) > 0) by {
        assert(t.contains(e));
    }
}

/// Sorting newest first only reorders: the same entries, as often.
pub proof fn lemma_sort_keeps_entries(s: Seq<ServerEntryView>)
    ensures
        sort_newest_first(s).to_multiset() =~= s.to_multiset(),
        sort_newest_first(s).len() == s.len(),
    decreases s.len(),
{
    broadcast use vstd::seq_lib::group_to_multiset_ensures;

    if s.len() > 0 {
        let r = sort_newest_first(s.drop_last());
        lemma_sort_keeps_entries(s.drop_last());
        lemma_slot_bounds(r, s.last().created_at, 0);
        lemma_insert_to_multiset(r, slot_from(r, s.last().created_at, 0), s.last());
        assert(s.drop_last().push(s.last()) =~= s);
    }
}

/// Sorting newest first leaves every entry at least as new as the ones
/// after it.
pub proof fn lemma_sort_is_newest_first(s: Seq<ServerEntryView>)
    ensures
        newest_first(sort_newest_first(s)),
    decreases s.len(),
{
    if s.len() > 0 {
        let r = sort_newest_first(s.drop_last());
        let e = s.last();
        lemma_sort_is_newest_first(s.drop_last());
        lemma_slot_bounds(r, e.created_at, 0);
        let p = slot_from(r, e.created_at, 0);
        let t = r.insert(p, e);
        r.insert_ensures(p, e);
        assert forall|i: int, j: int| 0 <= i < j < t.len() implies t[i].created_at
            >= t[j].created_at by {
            if j < p {
            } else if j == p {
            } else if i < p {
                assert(t[j] == r[j - 1]);
                if p < r.len() {
                    assert(r[p].created_at < e.created_at);
                    assert(r[i].created_at >= r[j - 1].created_at);
                }
            } else if i == p {
                assert(t[j] == r[j - 1]);
                assert(r[p].created_at >= r[j - 1].created_at);
            } else {
                assert(t[i] == r[i - 1]);
                assert(t[j] == r[j - 1]);
            }
        }
    }
}

/// Dropping an id leaves no entry with it, and keeps every other entry.
pub proof fn lemma_without_id(s: Seq<ServerEntryView>, id: Seq<char>)
    ensures
        forall|j: int| 0 <= j < without_id(s, id).len() ==> (#[trigger] without_id(s, id)[j]).id != id,
        forall|x: ServerEntryView| s.contains(x) && x.id != id ==> #[trigger] without_id(s, id).contains(x),
        forall|x: ServerEntryView| #[trigger] without_id(s, id).contains(x) ==> s.contains(x),
    decreases s.len(),
{
    if s.len() > 0 {
        let d = s.drop_last();
        lemma_without_id(d, id);
        let r = without_id(d, id);
        assert forall|x: ServerEntryView| s.contains(x) && x.id != id implies #[trigger] without_id(
            s,
            id,
        ).contains(x) by {
            let j = choose|j: int| 0 <= j < s.len() && s[j] == x;
            if j < s.len() - 1 {
                assert(d[j] == x);
                assert(d.contains(x));
                assert(without_id(d, id).contains(x));
                let k = choose|k: int| 0 <= k < r.len() && r[k] == x;
                if s.last().id != id {
                    assert(r.push(s.last())[k] == x);
                    assert(without_id(s, id) == r.push(s.last()));
                } else {
                    assert(without_id(s, id) == r);
                }
            } else {
                assert(r.push(s.last())[r.len() as int] == x);
            }
        }
        assert forall|x: ServerEntryView| #[trigger] without_id(s, id).contains(x) implies s.contains(
            x,
        ) by {
            let w = without_id(s, id);
            let j = choose|j: int| 0 <= j < w.len() && w[j] == x;
            if j < r.len() {
                assert(r[j] == x);
                assert(r.contains(x));
                let k = choose|k: int| 0 <= k < d.len() && d[k] == x;
                assert(s[k] == x);
            } else {
                assert(x == s.last());
                assert(s[s.len() - 1] == x);
            }
        }
    }
}

/// After a save the store is newest first and holds exactly the old entries
/// of other ids plus the saved entry, which is the only one with its id; a
/// saved entry always has an id.
pub proof fn lemma_save(
    store: Seq<ServerEntryView>,
    entry: ServerEntryView,
    now: u64,
    fresh_id: Seq<char>,
)
    requires
        entry.id.len() == 0 ==> fresh_id.len() > 0,
    ensures
        ({
            let e = saved_entry(store, entry, now, fresh_id);
            let r = saved_store(store, entry, now, fresh_id);
            &&& e.id.len() > 0
            &&& newest_first(r)
            &&& r.to_multiset() =~= without_id(store, e.id).to_multiset().insert(e)
            &&& r.contains(e)
            &&& forall|j: int| 0 <= j < r.len() && (#[trigger] r[j]).id == e.id ==> r[j] == e
            &&& forall|x: ServerEntryView| store.contains(x) && x.id != e.id ==> #[trigger] r.contains(x)
        }),
{
    broadcast use vstd::seq_lib::group_to_multiset_ensures;

    let e = saved_entry(store, entry, now, fresh_id);
    let w = without_id(store, e.id);
    let r = saved_store(store, entry, now, fresh_id);
    lemma_sort_keeps_entries(w.push(e));
    lemma_sort_is_newest_first(w.push(e));
    lemma_without_id(store, e.id);
    assert(r.to_multiset() =~= w.to_multiset().insert(e));
    assert(r.to_multiset().count(e) > 0);
    assert forall|j: int| 0 <= j < r.len() && (#[trigger] r[j]).id == e.id implies r[j] == e by {
        assert(r.contains(r[j]));
        assert(r.to_multiset().count(r[j]) > 0);
        if r[j] != e {
            assert(w.to_multiset().count(r[j]) > 0);
            assert(w.contains(r[j]));
            let k = choose|k: int| 0 <= k < w.len() && w[k] == r[j];
            assert(w[k].id != e.id);
        }
    }
    assert forall|x: ServerEntryView| store.contains(x) && x.id != e.id implies #[trigger] r.contains(
        x,
    ) by {
        assert(w.contains(x));
        assert(w.to_multiset().count(x) > 0);
        assert(r.to_multiset().count(x) > 0);
    }
}

/// After a delete no entry has the id, every other entry stays, and nothing
/// new appears.
pub proof fn lemma_delete(store: Seq<ServerEntryView>, id: Seq<char>)
    ensures
        forall|j: int| 0 <= j < without_id(store, id).len() ==> (#[trigger] without_id(store, id)[j]).id != id,
        forall|x: ServerEntryView| store.contains(x) && x.id != id ==> #[trigger] without_id(store, id).contains(x),
        forall|x: ServerEntryView| #[trigger] without_id(store, id).contains(x) ==> store.contains(x),
{
    lemma_without_id(store, id);
}

proof fn lemma_without_absent_id(s: Seq<ServerEntryView>, id: Seq<char>)
    requires
        forall|j: int| 0 <= j < s.len() ==> (#[trigger] s[j]).id != id,
    ensures
        without_id(s, id) == s,
    decreases s.len(),
{
    if s.len() > 0 {
        let d = s.drop_last();
        assert forall|j: int| 0 <= j < d.len() implies (#[trigger] d[j]).id != id by {
            assert(d[j] == s[j]);
        }
        lemma_without_absent_id(d, id);
        assert(s.last().id != id);
        assert(d.push(s.last()) =~= s);
    }
}

/// Deleting an id that no entry has leaves the store unchanged; so a second
/// delete of the same id changes nothing.
pub proof fn lemma_delete_idempotent(store: Seq<ServerEntryView>, id: Seq<char>)
    ensures
        (forall|j: int| 0 <= j < store.len() ==> (#[trigger] store[j]).id != id) ==> without_id(
            store,
            id,
        ) == store,
        without_id(without_id(store, id), id) == without_id(store, id),
{
    if forall|j: int| 0 <= j < store.len() ==> (#[trigger] store[j]).id != id {
        lemma_without_absent_id(store, id);
    }
    lemma_without_id(store, id);
    lemma_without_absent_id(without_id(store, id), id);
}

proof fn lemma_first_with_id_at(s: Seq<ServerEntryView>, id: Seq<char>, i: int, k: int)
    requires
        0 <= i <= k < s.len(),
        s[k].id == id,
        forall|l: int| i <= l < k ==> (#[trigger] s[l]).id != id,
    ensures
        first_with_id(s, id, i) == Some(k),
    decreases k - i,
{
    if i < k {
        lemma_first_with_id_at(s, id, i + 1, k);
    }
}

proof fn lemma_first_with_id_none(s: Seq<ServerEntryView>, id: Seq<char>, i: int)
    requires
        0 <= i,
        forall|l: int| i <= l < s.len() ==> (#[trigger] s[l]).id != id,
    ensures
        first_with_id(s, id, i) is None,
    decreases s.len() - i,
{
    if i < s.len() {
        lemma_first_with_id_none(s, id, i + 1);
    }
}

/// A save stores the given entry as it is but for two fields: a new entry
/// (empty id) takes the fresh id; the creation time is that of the first
/// stored entry with the same id, or `now` when none has it. Name, address,
/// port and group are the ones given.
pub proof fn lemma_saved_entry_fields(
    store: Seq<ServerEntryView>,
    entry: ServerEntryView,
    now: u64,
    fresh_id: Seq<char>,
)
    ensures
        ({
            let e = saved_entry(store, entry, now, fresh_id);
            &&& e.name == entry.name
            &&& e.ip == entry.ip
            &&& e.port == entry.port
            &&& e.default_group == entry.default_group
            &&& e.id == if entry.id.len() == 0 {
                fresh_id
            } else {
                entry.id
            }
            &&& entry.id.len() == 0 ==> e.created_at == now
            &&& entry.id.len() > 0 && (forall|l: int| 0 <= l < store.len() ==> (#[trigger] store[l]).id
                != entry.id) ==> e.created_at == now
            &&& forall|k: int|
                entry.id.len() > 0 && 0 <= k < store.len() && (#[trigger] store[k]).id == entry.id && (
                forall|l: int| 0 <= l < k ==> (#[trigger] store[l]).id != entry.id) ==> e.created_at
                    == store[k].created_at
        }),
{
    if entry.id.len() > 0 {
        if forall|l: int| 0 <= l < store.len() ==> (#[trigger] store[l]).id != entry.id {
            lemma_first_with_id_none(store, entry.id, 0);
        }
        assert forall|k: int|
            0 <= k < store.len() && (#[trigger] store[k]).id == entry.id && (forall|l: int|
                0 <= l < k ==> (#[trigger] store[l]).id != entry.id) implies saved_entry(
            store,
            entry,
            now,
            fresh_id,
        ).created_at == store[k].created_at by {
            lemma_first_with_id_at(store, entry.id, 0, k);
        }
    }
}

/// After a save, the store holds the saved entry with the given name,
/// address, port and group, under the saved id.
pub proof fn lemma_save_stores_given_fields(
    store: Seq<ServerEntryView>,
    entry: ServerEntryView,
    now: u64,
    fresh_id: Seq<char>,
)
    requires
        entry.id.len() == 0 ==> fresh_id.len() > 0,
    ensures
        exists|j: int|
            0 <= j < saved_store(store, entry, now, fresh_id).len() && ({
                let x = #[trigger] saved_store(store, entry, now, fresh_id)[j];
                &&& x.id == (if entry.id.len() == 0 {
                    fresh_id
                } else {
                    entry.id
                })
                &&& x.name == entry.name
                &&& x.ip == entry.ip
                &&& x.port == entry.port
                &&& x.default_group == entry.default_group
            }),
{
    lemma_save(store, entry, now, fresh_id);
    lemma_saved_entry_fields(store, entry, now, fresh_id);
    let r = saved_store(store, entry, now, fresh_id);
    let e = saved_entry(store, entry, now, fresh_id);
    let j = choose|j: int| 0 <= j < r.len() && r[j] == e;
    assert(r[j] == e);
}

} // verus!
