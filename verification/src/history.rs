//! History storage: an append-only, zero-indexed log of accepted lines.
//!
//! The log is owned by the host and only ever read through `get` and
//! `last` while a line is being edited; the editor itself never mutates
//! it.

use vstd::prelude::*;

verus! {

/// An append-only log of accepted lines, addressed by a stable zero-based
/// index.
pub trait History {
    /// The stored lines, oldest first.
    spec fn entries(&self) -> Seq<Seq<char>>;

    /// The entry at `idx`; present exactly when `idx` is in range.
    fn get(&self, idx: usize) -> (r: Option<String>)
        ensures
            match r {
                Some(s) => idx < self.entries().len() && s@ == self.entries()[idx as int],
                None => idx >= self.entries().len(),
            },
    ;

    /// The index of the most recent entry, if any.
    fn last(&self) -> (r: Option<usize>)
        ensures
            match r {
                Some(i) => self.entries().len() > 0 && i as int == self.entries().len() - 1,
                None => self.entries().len() == 0,
            },
    ;

    /// Appends an accepted line to the log.
    fn add(&mut self, line: &str)
        ensures
            final (self).entries() == old(self).entries().push(line@),
    ;
}

/// A simple in-memory history.
pub struct BasicHistory {
    items: Vec<String>,
}

impl BasicHistory {
    /// An empty history.
    pub fn new() -> (r: Self)
        ensures
            r.entries().len() == 0,
    {
        BasicHistory { items: Vec::new() }
    }
}

impl History for BasicHistory {
    closed spec fn entries(&self) -> Seq<Seq<char>> {
        self.items@.map_values(|s: String| s@)
    }

    fn get(&self, idx: usize) -> (r: Option<String>) {
        if idx < self.items.len() {
            Some(self.items[idx].clone())
        } else {
            None
        }
    }

    fn last(&self) -> (r: Option<usize>) {
        let n = self.items.len();
        if n == 0 {
            None
        } else {
            Some(n - 1)
        }
    }

    fn add(&mut self, line: &str) {
        let owned = line.to_owned();
        self.items.push(owned);
        proof {
            assert(self.entries() =~= old(self).entries().push(line@));
        }
    }
}

} // verus!
