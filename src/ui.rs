//! The combat log.

use vstd::prelude::*;

verus! {

/// Log of entries, oldest first.
pub struct GameLog {
    pub entries: Vec<String>,
}

impl View for GameLog {
    type V = Seq<Seq<char>>;

    open spec fn view(&self) -> Seq<Seq<char>> {
        self.entries@.map_values(|s: String| s@)
    }
}

impl GameLog {
    pub fn new() -> (r: GameLog)
        ensures
            r@ == Seq::<Seq<char>>::empty(),
    {
        GameLog { entries: Vec::new() }
    }

    /// Appends a message.
    pub fn log(&mut self, msg: String)
        ensures
            final(self)@ == old(self)@.push(msg@),
    {
        self.entries.push(msg);
        proof {
            assert(self@ =~= old(self)@.push(msg@));
        }
    }

    /// The latest `n` entries, most recent first.
    pub fn recent(&self, n: usize) -> (r: Vec<String>)
        ensures
            r@.len() == if n < self.entries@.len() { n as int } else { self.entries@.len() as int },
            forall|k: int|
                0 <= k < r@.len() ==> (#[trigger] r@[k])@ == self@[self@.len() - 1 - k],
    {
        let mut r: Vec<String> = Vec::new();
        let len = self.entries.len();
        let mut k: usize = 0;
        while k < n && k < len
            invariant
                len == self.entries@.len(),
                k <= len,
                k <= n,
                r@.len() == k,
                forall|j: int| 0 <= j < k ==> (#[trigger] r@[j])@ == self@[len - 1 - j],
            decreases len - k,
        {
            r.push(self.entries[len - 1 - k].clone());
            k += 1;
        }
        r
    }
}

} // verus!
