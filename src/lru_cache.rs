//! A small most-recently-used list: reading an entry moves it to the front.
use vstd::prelude::*;

verus! {

/// `s` with the entry at `idx` moved to the front, the entries before it
/// shifted back by one.
pub open spec fn to_front<T>(s: Seq<T>, idx: int) -> Seq<T> {
    seq![s[idx]] + s.subrange(0, idx) + s.subrange(idx + 1, s.len() as int)
}

#[derive(Clone, Debug)]
pub struct LRUCache<T> {
    pub array: Vec<T>,
}

impl<T> LRUCache<T> {
    /// Moves entry `idx` to the front; `None`, with nothing moved, when there
    /// is no such entry.
    pub fn touch(&mut self, idx: usize) -> (r: Option<()>)
        ensures
            idx < old(self).array@.len() ==> r is Some && final(self).array@ == to_front(
                old(self).array@,
                idx as int,
            ),
            idx >= old(self).array@.len() ==> r is None && final(self).array@ == old(
                self,
            ).array@,
    {
        if idx >= self.array.len() {
            return None;
        }
        let x = self.array.remove(idx);
        self.array.insert(0, x);
        assert(self.array@ =~= to_front(old(self).array@, idx as int));
        Some(())
    }

    /// Moves entry `idx` to the front and returns it.
    pub fn get(&mut self, idx: usize) -> (r: Option<&T>)
        ensures
            idx < old(self).array@.len() ==> final(self).array@ == to_front(
                old(self).array@,
                idx as int,
            ) && r == Some(&old(self).array@[idx as int]),
            idx >= old(self).array@.len() ==> r is None && final(self).array@ == old(
                self,
            ).array@,
    {
        match self.touch(idx) {
            Some(()) => Some(&self.array[0]),
            None => None,
        }
    }

    pub fn is_empty(&self) -> (r: bool)
        ensures
            r == (self.array@.len() == 0),
    {
        self.array.len() == 0
    }
}

} // verus!
