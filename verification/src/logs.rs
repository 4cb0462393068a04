//! The application log kept for the log window.

use vstd::prelude::*;
use crate::edge::EdgeState;
use crate::text::str_views;
use crate::trusted::{local_timestamp, stamp_text};

verus! {

/// At most this many application log entries are kept.
pub const GLOBAL_LOG_CAP: usize = 5000;

/// The entry kept for a message: `<timestamp>[<module>][<level>] <message>`.
pub open spec fn log_entry(
    timestamp: Seq<char>,
    level: Seq<char>,
    module: Seq<char>,
    message: Seq<char>,
) -> Seq<char> {
    timestamp + "["@ + module + "]["@ + level + "] "@ + message
}

/// The application log: entries in order, up to the cap; later ones are
/// dropped.
pub struct LogBuffer {
    entries: Vec<String>,
}

impl View for LogBuffer {
    type V = Seq<Seq<char>>;

    closed spec fn view(&self) -> Seq<Seq<char>> {
        str_views(self.entries@)
    }
}

impl LogBuffer {
    #[verifier::type_invariant]
    spec fn capped(&self) -> bool {
        self.entries@.len() <= GLOBAL_LOG_CAP
    }

    pub fn new() -> (b: Self)
        ensures
            b@ == Seq::<Seq<char>>::empty(),
    {
        let b = LogBuffer { entries: Vec::new() };
        assert(b@ =~= Seq::<Seq<char>>::empty());
        b
    }

    pub fn len(&self) -> (n: usize)
        ensures
            n == self@.len(),
            n <= GLOBAL_LOG_CAP,
    {
        proof {
            use_type_invariant(self);
        }
        self.entries.len()
    }

    /// Adds a message stamped with the local date and time, unless the log
    /// is full.
    pub fn add(&mut self, level: &str, module: &str, message: &str)
        ensures
            old(self)@.len() < GLOBAL_LOG_CAP ==> exists|ts: Seq<char>|
                stamp_text(ts) && final(self)@ == old(self)@.push(
                    log_entry(ts, level@, module@, message@),
                ),
            old(self)@.len() >= GLOBAL_LOG_CAP ==> final(self)@ == old(self)@,
    {
        proof {
            use_type_invariant(&*self);
        }
        if self.entries.len() < GLOBAL_LOG_CAP {
            let ts = local_timestamp();
            self.add_stamped(ts.as_str(), level, module, message);
        }
    }

    /// Adds a message stamped `timestamp`, unless the log is full.
    pub fn add_stamped(&mut self, timestamp: &str, level: &str, module: &str, message: &str)
        ensures
            old(self)@.len() < GLOBAL_LOG_CAP ==> final(self)@ == old(self)@.push(
                log_entry(timestamp@, level@, module@, message@),
            ),
            old(self)@.len() >= GLOBAL_LOG_CAP ==> final(self)@ == old(self)@,
    {
        proof {
            use_type_invariant(&*self);
        }
        if self.entries.len() < GLOBAL_LOG_CAP {
            let mut e = timestamp.to_string();
            e.append("[");
            e.append(module);
            e.append("][");
            e.append(level);
            e.append("] ");
            e.append(message);
            let mut entries: Vec<String> = Vec::new();
            std::mem::swap(&mut entries, &mut self.entries);
            let ghost before = entries@;
            entries.push(e);
            assert(str_views(entries@) =~= str_views(before).push(
                log_entry(timestamp@, level@, module@, message@),
            ));
            self.entries = entries;
        }
    }

    /// The entries, oldest first.
    pub fn entries(&self) -> (res: Vec<String>)
        ensures
            str_views(res@) == self@,
    {
        let mut res: Vec<String> = Vec::new();
        let n = self.entries.len();
        for i in 0..n
            invariant
                n == self.entries@.len(),
                str_views(res@) == str_views(self.entries@).take(i as int),
        {
            let e = self.entries[i].clone();
            let ghost prev = res@;
            res.push(e);
            assert(str_views(res@) =~= str_views(prev).push(self.entries@[i as int]@));
            assert(str_views(self.entries@).take(i + 1) =~= str_views(self.entries@).take(
                i as int,
            ).push(self.entries@[i as int]@));
        }
        assert(str_views(self.entries@).take(n as int) =~= str_views(self.entries@));
        res
    }
}

/// The application log followed by the edge's output lines.
pub fn all_logs(global: &LogBuffer, edge: &EdgeState) -> (res: Vec<String>)
    ensures
        str_views(res@) == global@ + edge@.logs,
{
    let mut res = global.entries();
    let mut more = edge.logs();
    let ghost a = str_views(res@);
    let ghost b = str_views(more@);
    res.append(&mut more);
    assert(str_views(res@) =~= a + b);
    res
}

} // verus!
