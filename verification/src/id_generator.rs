//! Monotonic counter producing stable small integer ids for newly created
//! colony sub-objects.

use vstd::prelude::*;

verus! {

pub struct IdGenerator {
    pub next_id: usize,
}

impl IdGenerator {
    pub fn new() -> (r: Self)
        ensures
            r.next_id == 0,
    {
        Self { next_id: 0 }
    }

    /// Hands out the next id and advances the counter, so that no id is
    /// ever produced twice by the same generator.
    pub fn generate(&mut self) -> (out: usize)
        requires
            old(self).next_id < usize::MAX,
        ensures
            out == old(self).next_id,
            final(self).next_id == old(self).next_id + 1,
    {
        let out = self.next_id;
        self.next_id = self.next_id + 1;
        out
    }
}

impl Default for IdGenerator {
    fn default() -> (r: Self)
        ensures
            r.next_id == 0,
    {
        Self::new()
    }
}

} // verus!
