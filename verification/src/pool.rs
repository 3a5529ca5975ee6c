//! Append-only storage for interned byte sequences. Each stored
//! string is final once committed; identifiers are stable and start
//! at 1, leaving 0 free as the "unused" marker in hash-table slots.

use vstd::prelude::*;

verus! {

/// Append-only byte-sequence storage with 1-based identifiers.
pub struct StringPool {
    strings: Vec<Vec<u8>>,
}

impl StringPool {
    /// How many strings are stored.
    pub closed spec fn count(self) -> int {
        self.strings@.len() as int
    }

    /// `id` names a stored string.
    pub open spec fn valid_id(self, id: int) -> bool {
        1 <= id <= self.count()
    }

    /// The bytes stored under `id`.
    pub closed spec fn str_at(self, id: int) -> Seq<u8>
        recommends
            self.valid_id(id),
    {
        self.strings@[id - 1]@
    }

    /// An empty pool.
    pub fn new() -> (r: StringPool)
        ensures
            r.count() == 0,
    {
        StringPool { strings: Vec::new() }
    }

    /// How many strings are stored.
    pub fn len(&self) -> (r: usize)
        ensures
            r as int == self.count(),
    {
        self.strings.len()
    }

    /// Store a copy of `bytes` and return its new identifier.
    pub fn append(&mut self, bytes: &Vec<u8>) -> (id: usize)
        requires
            old(self).count() < usize::MAX,
        ensures
            final(self).count() == old(self).count() + 1,
            id as int == final(self).count(),
            final(self).str_at(id as int) == bytes@,
            forall|q: int|
                old(self).valid_id(q) ==> #[trigger] final(self).str_at(q) == old(self).str_at(q),
    {
        let mut copy: Vec<u8> = Vec::new();
        let mut i: usize = 0;
        while i < bytes.len()
            invariant
                i <= bytes@.len(),
                copy@ == bytes@.subrange(0, i as int),
            decreases bytes@.len() - i,
        {
            copy.push(bytes[i]);
            proof {
                assert(copy@ =~= bytes@.subrange(0, i + 1));
            }
            i += 1;
        }
        proof {
            assert(copy@ =~= bytes@);
        }
        self.strings.push(copy);
        self.strings.len()
    }

    /// The bytes stored under `id`.
    pub fn get(&self, id: usize) -> (r: &Vec<u8>)
        requires
            self.valid_id(id as int),
        ensures
            r@ == self.str_at(id as int),
    {
        &self.strings[id - 1]
    }
}

} // verus!
