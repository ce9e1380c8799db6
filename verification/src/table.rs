//! The in-process transfer table: small records under sequential ids,
//! living until the process ends.

use vstd::prelude::*;

verus! {

/// A table of records keyed by the id it handed out.
pub struct TransferTable<T> {
    pub next_id: u64,
    pub entries: Vec<(u64, T)>,
}

/// Table invariant: every key was handed out, and keys never repeat.
pub open spec fn table_wf<T>(t: TransferTable<T>) -> bool {
    &&& forall|i: int| 0 <= i < t.entries@.len() ==> (#[trigger] t.entries@[i].0) < t.next_id
    &&& forall|i: int, j: int|
        0 <= i < j < t.entries@.len() ==> (#[trigger] t.entries@[i].0) != (
        #[trigger] t.entries@[j].0)
}

impl<T> TransferTable<T> {
    /// An empty table.
    pub fn new() -> (r: TransferTable<T>)
        ensures
            table_wf(r),
            r.entries@.len() == 0,
    {
        TransferTable { next_id: 0, entries: Vec::new() }
    }

    /// Insert a record under a fresh id.
    pub fn insert(&mut self, t: T) -> (id: u64)
        requires
            table_wf(*old(self)),
            old(self).next_id < u64::MAX,
        ensures
            table_wf(*final(self)),
            final(self).entries@ == old(self).entries@.push((id, t)),
            id == old(self).next_id,
            final(self).next_id == id + 1,
    {
        let id = self.next_id;
        self.entries.push((id, t));
        self.next_id = self.next_id + 1;
        id
    }

    /// The position of a record, by id.
    pub fn find(&self, id: u64) -> (r: Option<usize>)
        ensures
            match r {
                Some(i) => i < self.entries@.len() && self.entries@[i as int].0 == id,
                None => forall|i: int|
                    0 <= i < self.entries@.len() ==> (#[trigger] self.entries@[i].0) != id,
            },
    {
        let n: usize = self.entries.len();
        let mut i: usize = 0;
        while i < n
            invariant
                n == self.entries@.len(),
                i <= n,
                forall|j: int| 0 <= j < i ==> (#[trigger] self.entries@[j].0) != id,
            decreases n - i,
        {
            if self.entries[i].0 == id {
                return Some(i);
            }
            i += 1;
        }
        None
    }

    /// Replace the record at a known position, keeping its id.
    pub fn set_at(&mut self, i: usize, t: T)
        requires
            table_wf(*old(self)),
            i < old(self).entries@.len(),
        ensures
            table_wf(*final(self)),
            final(self).entries@ == old(self).entries@.update(
                i as int,
                (old(self).entries@[i as int].0, t),
            ),
            final(self).next_id == old(self).next_id,
    {
        let id = self.entries[i].0;
        self.entries.set(i, (id, t));
    }
}

} // verus!
