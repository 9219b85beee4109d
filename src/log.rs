//! The log of turn summaries: a short history, oldest entry first.
use vstd::prelude::*;

verus! {

/// How many entries the log keeps when a turn starts, before the separator is added.
pub const LOG_BOUND: usize = 11;

/// The header of the entry that closes each turn.
pub const LOG_SEPARATOR: &'static str = "-------------------------------------------------";

/// A log entry as text: its header and its detail.
pub type LogEntryView = (Seq<char>, Seq<char>);

/// The header of the separator entry: a row of 49 dashes.
pub open spec fn separator_header() -> Seq<char> {
    Seq::new(49, |_i: int| '-')
}

/// The entry that closes each turn: the row of dashes and an empty detail.
pub open spec fn separator_entry() -> LogEntryView {
    (separator_header(), Seq::empty())
}

/// The newest `LOG_BOUND` entries of `entries`, all of them when there are no more.
pub open spec fn trimmed(entries: Seq<LogEntryView>) -> Seq<LogEntryView> {
    if entries.len() > LOG_BOUND {
        entries.subrange(entries.len() - LOG_BOUND, entries.len() as int)
    } else {
        entries
    }
}

/// The log: (header, detail) pairs, oldest first.
pub struct Log(pub Vec<(String, String)>);

impl View for Log {
    type V = Seq<LogEntryView>;

    open spec fn view(&self) -> Seq<LogEntryView> {
        self.0@.map_values(|e: (String, String)| (e.0@, e.1@))
    }
}

impl Log {
    /// An empty log.
    pub fn new() -> (l: Log)
        ensures
            l@ == Seq::<LogEntryView>::empty(),
    {
        let l = Log(Vec::new());
        assert(l@ =~= Seq::<LogEntryView>::empty());
        l
    }

    pub fn len(&self) -> (n: usize)
        ensures
            n == self@.len(),
    {
        self.0.len()
    }

    /// Appends an entry at the newest end.
    pub fn push(&mut self, header: String, detail: String)
        ensures
            final(self)@ == old(self)@.push((header@, detail@)),
    {
        self.0.push((header, detail));
        assert(final(self)@ =~= old(self)@.push((header@, detail@)));
    }

    /// Drops the oldest entries until at most `LOG_BOUND` remain.
    pub fn trim(&mut self)
        ensures
            final(self)@ == trimmed(old(self)@),
            final(self)@.len() <= LOG_BOUND,
    {
        let ghost n = old(self)@.len();
        while self.0.len() > LOG_BOUND
            invariant
                n == old(self)@.len(),
                self@.len() <= n,
                n > LOG_BOUND ==> self@.len() >= LOG_BOUND,
                n <= LOG_BOUND ==> self@.len() == n,
                self@ == old(self)@.subrange(n - self@.len(), n as int),
            decreases self.0@.len(),
        {
            let ghost before = self@;
            self.0.remove(0);
            assert(self@ =~= before.subrange(1, before.len() as int));
        }
        assert(self@ =~= trimmed(old(self)@));
    }

    /// Appends the separator entry that closes a turn.
    pub fn push_separator(&mut self)
        ensures
            final(self)@ == old(self)@.push(separator_entry()),
    {
        proof {
            reveal_strlit("-------------------------------------------------");
        }
        let header = String::from_str(LOG_SEPARATOR);
        assert(header@ =~= separator_header());
        let detail = String::new();
        self.push(header, detail);
    }

    /// What happens to the log when the game waits for the next god action:
    /// it is cut down to its newest `LOG_BOUND` entries and the separator is appended.
    pub fn start_of_turn_log_edits(&mut self)
        ensures
            final(self)@ == trimmed(old(self)@).push(separator_entry()),
            final(self)@.len() <= LOG_BOUND + 1,
    {
        self.trim();
        self.push_separator();
    }
}

} // verus!
