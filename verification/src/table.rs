//! The symbol table: a fixed-capacity hash table over the string
//! pool. Identical byte sequences are deduplicated into one stable
//! numeric identifier carrying a tagged payload.
//!
//! Slot layout: slot 0 is the reserved sentinel, slots 1 through the
//! table size are the bucket heads, and each interned string takes
//! the slot named by the active-length counter, which then grows by
//! one — so identifiers count up in insertion order. Collisions are
//! resolved by chains threaded through slot indices; new entries are
//! linked to the tail of their bucket's chain, so a lookup scans
//! oldest to newest and the first-ever insertion of a byte sequence
//! is always the one found. Exceeding the string capacity is the
//! table's one fatal condition, reported and never swallowed.

use vstd::prelude::*;

verus! {

use crate::kinds::HashExtra;
use crate::planner::{compute_hash_prime, is_prime, prime_target};
use crate::pool::StringPool;

/// Slot 0 is reserved as the chain terminator and "undefined"
/// sentinel; usable slots start here.
pub const HASH_BASE: usize = 1;

/// The hash of a byte sequence: a left fold of `h -> 2*h + byte`,
/// reduced modulo the table prime at every step.
pub open spec fn spec_hash(bytes: Seq<u8>, prime: int) -> int
    decreases bytes.len(),
{
    if bytes.len() == 0 {
        0
    } else {
        (2 * spec_hash(bytes.drop_last(), prime) + bytes.last()) % prime
    }
}

/// One slot of the hash table.
///
/// `next` chains this slot to the rest of its bucket (0 ends the
/// chain); `text` is the pool identifier of the interned bytes (0 in
/// an unused slot); `extra` is the tagged payload.
#[derive(Clone, Copy, Debug)]
pub struct HashNode {
    pub next: usize,
    pub text: usize,
    pub extra: HashExtra,
}

/// Where a lookup ended: the slot where the string exists, was
/// inserted, or — for a pure lookup that found nothing — where it
/// would have been linked.
#[derive(Clone, Copy, Debug, PartialEq, Eq, Structural)]
pub struct LookupRes {
    pub loc: usize,
    pub exists: bool,
}

/// The one fatal condition the table itself can raise: no room for
/// another distinct string.
#[derive(Clone, Copy, Debug, PartialEq, Eq, Structural)]
pub enum InternError {
    CapacityExceeded,
}

/// The model holds `bytes`.
pub open spec fn has_bytes(m: Seq<(Seq<u8>, HashExtra)>, bytes: Seq<u8>) -> bool {
    exists|k: int| 0 <= k < m.len() && (#[trigger] m[k]).0 == bytes
}

/// The position at which the model holds `bytes`.
pub open spec fn index_of(m: Seq<(Seq<u8>, HashExtra)>, bytes: Seq<u8>) -> int {
    choose|k: int| 0 <= k < m.len() && (#[trigger] m[k]).0 == bytes
}

/// No byte sequence occurs twice in the model.
pub open spec fn distinct_model(m: Seq<(Seq<u8>, HashExtra)>) -> bool {
    forall|k1: int, k2: int|
        0 <= k1 < m.len() && 0 <= k2 < m.len() && k1 != k2 ==> (#[trigger] m[k1]).0 != (
        #[trigger] m[k2]).0
}

/// Hash table over pool entries, deduplicating byte sequences into
/// stable slot identifiers.
pub struct SymbolTable {
    nodes: Vec<HashNode>,
    hash_size: usize,
    prime: usize,
    capacity: usize,
    pool: StringPool,
    chains: Ghost<Map<int, Seq<int>>>,
}

impl SymbolTable {
    /// The table size: `max(capacity, 5000)` usable head slots.
    pub closed spec fn hash_size_spec(self) -> int {
        self.hash_size as int
    }

    /// The derived sizing prime.
    pub closed spec fn prime_spec(self) -> int {
        self.prime as int
    }

    /// How many distinct strings the table accepts.
    pub closed spec fn capacity_spec(self) -> int {
        self.capacity as int
    }

    /// The first slot index used for entries (one past the heads).
    pub open spec fn entry_base(self) -> int {
        self.hash_size_spec() + 1
    }

    spec fn nodes_len(self) -> int {
        self.nodes@.len() as int
    }

    spec fn is_entry_raw(self, i: int) -> bool {
        self.hash_size as int + 1 <= i < self.nodes_len()
    }

    spec fn entry_bytes(self, i: int) -> Seq<u8> {
        self.pool.str_at(self.nodes@[i].text as int)
    }

    /// The bucket head slot a byte sequence hashes to.
    pub closed spec fn home_of(self, bytes: Seq<u8>) -> int {
        spec_hash(bytes, self.prime_spec()) + HASH_BASE
    }

    /// The interned strings with their payloads, in insertion order;
    /// the string at position `k` has identifier `entry_base() + k`.
    pub closed spec fn interned(self) -> Seq<(Seq<u8>, HashExtra)> {
        Seq::new(
            (self.nodes_len() - (self.hash_size as int + 1)) as nat,
            |k: int|
                (
                    self.entry_bytes(self.hash_size as int + 1 + k),
                    self.nodes@[self.hash_size as int + 1 + k].extra,
                ),
        )
    }

    /// `id` is the identifier of some interned string.
    pub open spec fn valid_id(self, id: int) -> bool {
        self.entry_base() <= id < self.entry_base() + self.interned().len()
    }

    /// The identifier `intern` assigned to `bytes`.
    pub open spec fn id_of(self, bytes: Seq<u8>) -> int {
        self.entry_base() + index_of(self.interned(), bytes)
    }

    /// Where a missed lookup would link a new entry: the tail of the
    /// home bucket's chain, or the head slot itself if the chain is
    /// empty.
    pub closed spec fn would_slot(self, bytes: Seq<u8>) -> int {
        let c = self.chains@[self.home_of(bytes)];
        if c.len() == 0 {
            self.home_of(bytes)
        } else {
            c[c.len() - 1]
        }
    }

    spec fn chain_ok(self, h: int) -> bool {
        let c = self.chains@[h];
        &&& (c.len() == 0 ==> self.nodes@[h].next == 0)
        &&& (c.len() > 0 ==> self.nodes@[h].next as int == c[0] && self.nodes@[c[c.len()
            - 1]].next == 0)
        &&& (forall|k: int|
            0 <= k < c.len() ==> self.is_entry_raw(#[trigger] c[k]) && self.home_of(
                self.entry_bytes(c[k]),
            ) == h)
        &&& (forall|k: int|
            0 <= k < c.len() - 1 ==> self.nodes@[#[trigger] c[k]].next as int == c[k + 1] && c[k]
                < c[k + 1])
    }

    /// The representation invariant.
    pub closed spec fn wf(self) -> bool {
        &&& 5000 <= self.hash_size <= 0x1000_0000
        &&& 2 <= self.prime <= self.hash_size
        &&& self.capacity <= 0x1000_0000
        &&& self.hash_size as int + 1 <= self.nodes_len()
        &&& self.nodes_len() <= self.hash_size as int + 1 + self.capacity as int
        &&& self.pool.count() == self.nodes_len() - (self.hash_size as int + 1)
        &&& (forall|h: int| 0 <= h <= self.hash_size as int ==> (#[trigger] self.nodes@[h]).text
            == 0)
        &&& self.nodes@[0].next == 0
        &&& (forall|i: int|
            self.is_entry_raw(i) ==> self.pool.valid_id((#[trigger] self.nodes@[i]).text as int))
        &&& (forall|i: int, j: int|
            self.is_entry_raw(i) && self.is_entry_raw(j) && i != j ==> #[trigger] self.entry_bytes(
                i,
            ) != #[trigger] self.entry_bytes(j))
        &&& (forall|h: int| 1 <= h <= self.hash_size as int ==> self.chains@.contains_key(h))
        &&& (forall|h: int| 1 <= h <= self.hash_size as int ==> self.chain_ok(h))
        &&& (forall|i: int|
            self.is_entry_raw(i) ==> 1 <= self.home_of(#[trigger] self.entry_bytes(i))
                <= self.hash_size as int && self.chains@[self.home_of(self.entry_bytes(i))].contains(
                i,
            ))
    }

    /// The interned model never repeats a byte sequence.
    pub proof fn lemma_model_distinct(self)
        requires
            self.wf(),
        ensures
            distinct_model(self.interned()),
    {
        assert forall|k1: int, k2: int|
            0 <= k1 < self.interned().len() && 0 <= k2 < self.interned().len() && k1 != k2 implies (
        #[trigger] self.interned()[k1]).0 != (#[trigger] self.interned()[k2]).0 by {
            let i = self.hash_size as int + 1 + k1;
            let j = self.hash_size as int + 1 + k2;
            assert(self.entry_bytes(i) != self.entry_bytes(j));
        }
    }

    /// Create a table able to hold `capacity` distinct strings. The
    /// head region is sized `max(capacity, 5000)` and the sizing
    /// prime derived from it; the one way this fails is the planner
    /// finding no prime in its window.
    pub fn new(capacity: usize) -> (r: Option<SymbolTable>)
        requires
            capacity <= 0x1000_0000,
        ensures
            match r {
                Some(t) => {
                    &&& t.wf()
                    &&& t.interned().len() == 0
                    &&& t.capacity_spec() == capacity as int
                    &&& t.hash_size_spec() == if capacity > 5000 {
                        capacity as int
                    } else {
                        5000
                    }
                    &&& is_prime(t.prime_spec())
                    &&& prime_target(t.hash_size_spec()) <= t.prime_spec()
                    &&& t.prime_spec() <= t.hash_size_spec()
                    &&& 128 <= t.prime_spec()
                    &&& forall|q: int|
                        is_prime(q) && prime_target(t.hash_size_spec()) <= q ==> t.prime_spec()
                            <= q
                },
                None => forall|q: int|
                    prime_target(
                        if capacity > 5000 {
                            capacity as int
                        } else {
                            5000
                        },
                    ) <= q <= (if capacity > 5000 {
                        capacity as int
                    } else {
                        5000
                    }) ==> !is_prime(q),
            },
    {
        let hash_size: usize = if capacity > 5000 {
            capacity
        } else {
            5000
        };
        let prime = match compute_hash_prime(hash_size) {
            Some(p) => p,
            None => {
                return None;
            },
        };
        let mut nodes: Vec<HashNode> = Vec::new();
        let mut i: usize = 0;
        while i < hash_size + 1
            invariant
                i <= hash_size + 1,
                hash_size <= 0x1000_0000,
                nodes@.len() == i as int,
                forall|k: int|
                    0 <= k < i as int ==> (#[trigger] nodes@[k]).text == 0 && nodes@[k].next == 0,
            decreases hash_size + 1 - i,
        {
            nodes.push(HashNode { next: 0, text: 0, extra: HashExtra::Text });
            i += 1;
        }
        let t = SymbolTable {
            nodes,
            hash_size,
            prime,
            capacity,
            pool: StringPool::new(),
            chains: Ghost(Map::new(|h: int| 1 <= h <= hash_size as int, |h: int| Seq::empty())),
        };
        proof {
            assert(t.interned().len() == 0);
            assert forall|h: int| 1 <= h <= t.hash_size as int implies t.chain_ok(h) by {
                assert(t.chains@[h].len() == 0);
            }
            assert(t.wf());
        }
        Some(t)
    }

    /// Look up `bytes`, interning it when `insert` is set.
    ///
    /// If the bytes were interned before, the original identifier is
    /// returned with `exists` set, whatever `insert` says and
    /// whatever payload was passed now. Otherwise, with `insert`
    /// clear, nothing changes and `loc` names the chain-end slot
    /// where the entry would have gone; with `insert` set the bytes
    /// are stored, linked to the tail of their bucket's chain and
    /// given the next identifier — unless the table already holds
    /// its full complement of distinct strings, which is the one
    /// error.
    #[verifier::rlimit(100)]
    pub fn intern(&mut self, bytes: &Vec<u8>, extra: HashExtra, insert: bool) -> (r: Result<
        LookupRes,
        InternError,
    >)
        requires
            old(self).wf(),
        ensures
            final(self).wf(),
            final(self).hash_size_spec() == old(self).hash_size_spec(),
            final(self).prime_spec() == old(self).prime_spec(),
            final(self).capacity_spec() == old(self).capacity_spec(),
            match r {
                Ok(res) => {
                    &&& (has_bytes(old(self).interned(), bytes@) ==> {
                        &&& res.exists
                        &&& res.loc as int == old(self).id_of(bytes@)
                        &&& *final(self) == *old(self)
                    })
                    &&& (!has_bytes(old(self).interned(), bytes@) && !insert ==> {
                        &&& !res.exists
                        &&& res.loc as int == old(self).would_slot(bytes@)
                        &&& *final(self) == *old(self)
                    })
                    &&& (!has_bytes(old(self).interned(), bytes@) && insert ==> {
                        &&& !res.exists
                        &&& res.loc as int == old(self).entry_base() + old(self).interned().len()
                        &&& final(self).interned() == old(self).interned().push((bytes@, extra))
                    })
                },
                Err(e) => {
                    &&& e == InternError::CapacityExceeded
                    &&& insert
                    &&& !has_bytes(old(self).interned(), bytes@)
                    &&& old(self).interned().len() >= old(self).capacity_spec()
                    &&& *final(self) == *old(self)
                },
            },
    {
        let h = hash_bytes(bytes, self.prime) + HASH_BASE;
        let ghost c = self.chains@[h as int];
        let mut prev: usize = h;
        let mut p: usize = self.nodes[h].next;
        let ghost mut k: int = 0;

        proof {
            assert(self.chain_ok(h as int));
        }

        loop
            invariant
                *self == *old(self),
                self.wf(),
                h as int == self.home_of(bytes@),
                1 <= h as int <= self.hash_size_spec(),
                c == self.chains@[h as int],
                self.chain_ok(h as int),
                0 <= k <= c.len(),
                k < c.len() ==> p as int == c[k],
                k == c.len() ==> p == 0,
                k == 0 ==> prev == h,
                k > 0 ==> prev as int == c[k - 1],
                forall|j: int| 0 <= j < k ==> self.entry_bytes(#[trigger] c[j]) != bytes@,
            ensures
                *self == *old(self),
                k == c.len(),
                p == 0,
                k == 0 ==> prev == h,
                k > 0 ==> prev as int == c[k - 1],
                forall|j: int| 0 <= j < c.len() ==> self.entry_bytes(#[trigger] c[j]) != bytes@,
            decreases c.len() - k,
        {
            if p == 0 {
                proof {
                    if k < c.len() {
                        assert(self.is_entry_raw(c[k]));
                    }
                }
                break;
            }
            proof {
                assert(k < c.len());
                assert(self.is_entry_raw(p as int));
                assert(self.pool.valid_id(self.nodes@[p as int].text as int));
            }
            let t_id = self.nodes[p].text;
            if bytes_eq(self.pool.get(t_id), bytes) {
                proof {
                    let ki = p as int - (self.hash_size as int + 1);
                    assert(self.interned()[ki].0 == bytes@);
                    assert(has_bytes(self.interned(), bytes@));
                    self.lemma_model_distinct();
                    let kc = index_of(self.interned(), bytes@);
                    assert(0 <= kc < self.interned().len() && self.interned()[kc].0 == bytes@);
                    if kc != ki {
                        assert(self.interned()[kc].0 != self.interned()[ki].0);
                    }
                    assert(p as int == self.id_of(bytes@));
                }
                return Ok(LookupRes { loc: p, exists: true });
            }
            proof {
                assert(self.entry_bytes(c[k]) != bytes@);
            }
            prev = p;
            p = self.nodes[p].next;
            proof {
                assert(self.chain_ok(h as int));
                if k < c.len() - 1 {
                    assert(self.nodes@[c[k]].next as int == c[k + 1]);
                } else {
                    assert(self.nodes@[c[c.len() - 1]].next == 0);
                }
                k = k + 1;
            }
        }

        proof {
            assert forall|i: int| self.is_entry_raw(i) implies self.entry_bytes(i) != bytes@ by {
                if self.entry_bytes(i) == bytes@ {
                    assert(self.home_of(self.entry_bytes(i)) == h as int);
                    assert(self.chains@[h as int].contains(i));
                    let j = choose|j: int| 0 <= j < c.len() && c[j] == i;
                    assert(self.entry_bytes(c[j]) != bytes@);
                }
            }
            assert(!has_bytes(self.interned(), bytes@)) by {
                if has_bytes(self.interned(), bytes@) {
                    let kk = choose|kk: int|
                        0 <= kk < self.interned().len() && (#[trigger] self.interned()[kk]).0
                            == bytes@;
                    let i = self.hash_size as int + 1 + kk;
                    assert(self.is_entry_raw(i));
                    assert(self.entry_bytes(i) == bytes@);
                }
            }
        }

        if !insert {
            proof {
                if c.len() == 0 {
                    assert(prev as int == self.would_slot(bytes@));
                } else {
                    assert(prev as int == c[c.len() - 1]);
                }
            }
            return Ok(LookupRes { loc: prev, exists: false });
        }

        if self.nodes.len() >= self.hash_size + 1 + self.capacity {
            return Err(InternError::CapacityExceeded);
        }

        let ghost s0 = *self;
        let text = self.pool.append(bytes);
        let new_slot = self.nodes.len();
        self.nodes.push(HashNode { next: 0, text, extra });
        let mut pn = self.nodes[prev];
        pn.next = new_slot;
        self.nodes[prev] = pn;
        proof {
            self.chains@ = s0.chains@.insert(h as int, c.push(new_slot as int));
        }

        proof {
            assert(s0.chain_ok(h as int));
            if c.len() > 0 {
                assert(s0.is_entry_raw(c[c.len() - 1]));
            }
            assert(0 <= (prev as int) && (prev as int) < s0.nodes_len());
            assert(pn == (HashNode {
                next: new_slot as usize,
                text: s0.nodes@[prev as int].text,
                extra: s0.nodes@[prev as int].extra,
            }));
            lemma_insert_restores(
                s0,
                *self,
                bytes@,
                extra,
                h as int,
                c,
                prev as int,
                text,
                new_slot as int,
                pn,
            );
        }

        Ok(LookupRes { loc: new_slot, exists: false })
    }

    /// The active-length counter: one past the highest identifier in
    /// use, and the identifier the next interned string will get.
    pub fn len(&self) -> (r: usize)
        requires
            self.wf(),
        ensures
            r as int == self.entry_base() + self.interned().len(),
    {
        self.nodes.len()
    }

    /// The derived prime that sizes this table's buckets.
    pub fn prime(&self) -> (r: usize)
        ensures
            r as int == self.prime_spec(),
    {
        self.prime
    }

    /// A well-formed table never holds more distinct strings than
    /// its capacity; a full table therefore refuses every further
    /// insert.
    pub proof fn lemma_len_within_capacity(self)
        requires
            self.wf(),
        ensures
            self.interned().len() <= self.capacity_spec(),
    {
    }

    /// Whether `id` names an interned string, decidable at run time
    /// so that unverified callers can guard `resolve`.
    pub fn is_valid_id(&self, id: usize) -> (r: bool)
        requires
            self.wf(),
        ensures
            r == self.valid_id(id as int),
    {
        self.hash_size < id && id < self.nodes.len()
    }

    /// The bytes and payload interned under `id`.
    pub fn resolve(&self, id: usize) -> (r: (&Vec<u8>, HashExtra))
        requires
            self.wf(),
            self.valid_id(id as int),
        ensures
            r.0@ == self.interned()[id as int - self.entry_base()].0,
            r.1 == self.interned()[id as int - self.entry_base()].1,
    {
        let node = self.nodes[id];
        (self.pool.get(node.text), node.extra)
    }
}


/// The relationship between the table before an insert (`s0`) and
/// after it (`s1`): a fresh node pushed, the tail of the home chain
/// relinked, the chain map extended, the pool grown by the new bytes.
spec fn insert_shape(
    s0: SymbolTable,
    s1: SymbolTable,
    bytes: Seq<u8>,
    extra: HashExtra,
    h: int,
    c: Seq<int>,
    prev: int,
    text: usize,
    new_slot: int,
    pn: HashNode,
) -> bool {
    &&& s0.wf()
    &&& 1 <= h <= s0.hash_size_spec()
    &&& h == s0.home_of(bytes)
    &&& c == s0.chains@[h]
    &&& s0.chain_ok(h)
    &&& (forall|i: int| s0.is_entry_raw(i) ==> #[trigger] s0.entry_bytes(i) != bytes)
    &&& (c.len() == 0 ==> prev == h)
    &&& (c.len() > 0 ==> prev == c[c.len() - 1])
    &&& 0 <= prev < s0.nodes_len()
    &&& s0.nodes_len() < s0.hash_size_spec() + 1 + s0.capacity_spec()
    &&& new_slot == s0.nodes_len()
    &&& new_slot <= usize::MAX
    &&& pn == (HashNode {
        next: new_slot as usize,
        text: s0.nodes@[prev].text,
        extra: s0.nodes@[prev].extra,
    })
    &&& s1.hash_size_spec() == s0.hash_size_spec()
    &&& s1.prime_spec() == s0.prime_spec()
    &&& s1.capacity_spec() == s0.capacity_spec()
    &&& s1.nodes@ == s0.nodes@.push(HashNode { next: 0, text, extra }).update(prev, pn)
    &&& s1.chains@ == s0.chains@.insert(h, c.push(new_slot))
    &&& s1.pool.count() == s0.pool.count() + 1
    &&& text as int == s0.pool.count() + 1
    &&& s1.pool.str_at(text as int) == bytes
    &&& (forall|q: int| s0.pool.valid_id(q) ==> #[trigger] s1.pool.str_at(q) == s0.pool.str_at(q))
}

/// Frame facts of an insert: every slot but `prev` is untouched, old
/// entries keep their bytes and payloads, the new entry holds the
/// new bytes, and hashing is unchanged.
#[verifier::rlimit(100)]
#[verifier::spinoff_prover]
proof fn lemma_insert_frame(
    s0: SymbolTable,
    s1: SymbolTable,
    bytes: Seq<u8>,
    extra: HashExtra,
    h: int,
    c: Seq<int>,
    prev: int,
    text: usize,
    new_slot: int,
    pn: HashNode,
)
    requires
        insert_shape(s0, s1, bytes, extra, h, c, prev, text, new_slot, pn),
    ensures
        forall|i: int| 0 <= i < s0.nodes_len() && i != prev ==> #[trigger] s1.nodes@[i]
            == s0.nodes@[i],
        forall|i: int|
            s0.is_entry_raw(i) ==> #[trigger] s1.entry_bytes(i) == s0.entry_bytes(i)
                && s1.nodes@[i].extra == s0.nodes@[i].extra && s1.nodes@[i].text
                == s0.nodes@[i].text,
        s1.nodes@[new_slot].text == text,
        s1.entry_bytes(new_slot) == bytes,
        s1.nodes@[new_slot].next == 0,
        s1.nodes@[new_slot].extra == extra,
        forall|bs: Seq<u8>| #[trigger] s1.home_of(bs) == s0.home_of(bs),
        s1.nodes_len() == s0.nodes_len() + 1,
        s1.nodes@[prev].next as int == new_slot,
        s1.nodes@[prev].text == s0.nodes@[prev].text,
        s1.nodes@[prev].extra == s0.nodes@[prev].extra,
    {
    assert forall|i: int| s0.is_entry_raw(i) implies #[trigger] s1.entry_bytes(i)
        == s0.entry_bytes(i) && s1.nodes@[i].extra == s0.nodes@[i].extra && s1.nodes@[i].text
        == s0.nodes@[i].text by {
        assert(s0.pool.valid_id(s0.nodes@[i].text as int));
        if i != prev {
            assert(s1.nodes@[i] == s0.nodes@[i]);
        }
    }
}

/// Elements of the extended home chain are entries homed at `h`.
#[verifier::rlimit(100)]
#[verifier::spinoff_prover]
proof fn lemma_home_chain_elems(
    s0: SymbolTable,
    s1: SymbolTable,
    bytes: Seq<u8>,
    extra: HashExtra,
    h: int,
    c: Seq<int>,
    prev: int,
    text: usize,
    new_slot: int,
    pn: HashNode,
)
    requires
        insert_shape(s0, s1, bytes, extra, h, c, prev, text, new_slot, pn),
    ensures
        forall|kk: int|
            0 <= kk < c.push(new_slot).len() ==> s1.is_entry_raw(#[trigger] c.push(new_slot)[kk])
                && s1.home_of(s1.entry_bytes(c.push(new_slot)[kk])) == h,
{
    let c1 = c.push(new_slot);
    assert forall|kk: int| 0 <= kk < c1.len() implies s1.is_entry_raw(#[trigger] c1[kk])
        && s1.home_of(s1.entry_bytes(c1[kk])) == h by {
        if kk < c.len() {
            assert(c1[kk] == c[kk]);
            assert(s0.is_entry_raw(c[kk]));
            assert(s0.pool.valid_id(s0.nodes@[c[kk]].text as int));
            if c[kk] != prev {
                assert(s1.nodes@[c[kk]] == s0.nodes@[c[kk]]);
            }
            assert(s1.nodes@[c[kk]].text == s0.nodes@[c[kk]].text);
            assert(s1.entry_bytes(c[kk]) == s0.entry_bytes(c[kk]));
        } else {
            assert(c1[kk] == new_slot);
            assert(s1.nodes@[new_slot].text == text);
            assert(s1.entry_bytes(new_slot) == bytes);
        }
    }
}

/// After an insert the home chain, extended at its tail, is again a
/// well-formed chain.
#[verifier::rlimit(100)]
#[verifier::spinoff_prover]
proof fn lemma_insert_home_chain(
    s0: SymbolTable,
    s1: SymbolTable,
    bytes: Seq<u8>,
    extra: HashExtra,
    h: int,
    c: Seq<int>,
    prev: int,
    text: usize,
    new_slot: int,
    pn: HashNode,
)
    requires
        insert_shape(s0, s1, bytes, extra, h, c, prev, text, new_slot, pn),
    ensures
        s1.chain_ok(h),
{
    lemma_insert_frame(s0, s1, bytes, extra, h, c, prev, text, new_slot, pn);
    lemma_home_chain_elems(s0, s1, bytes, extra, h, c, prev, text, new_slot, pn);
    let c1 = c.push(new_slot);
    assert(s1.chains@[h] == c1);
    if c.len() == 0 {
        assert(prev == h);
        assert(s1.nodes@[h].next as int == new_slot);
        assert(c1[0] == new_slot);
    } else {
        assert(prev == c[c.len() - 1]);
        assert(s0.is_entry_raw(prev));
        assert(h != prev);
        assert(s1.nodes@[h].next as int == c[0]);
        assert(c1[0] == c[0]);
    }
    assert(c1[c1.len() - 1] == new_slot);
    assert(s1.nodes@[c1[c1.len() - 1]].next == 0);
}

/// After an insert every other chain is exactly as it was.
#[verifier::rlimit(100)]
#[verifier::spinoff_prover]
proof fn lemma_insert_other_chains(
    s0: SymbolTable,
    s1: SymbolTable,
    bytes: Seq<u8>,
    extra: HashExtra,
    h: int,
    c: Seq<int>,
    prev: int,
    text: usize,
    new_slot: int,
    pn: HashNode,
)
    requires
        insert_shape(s0, s1, bytes, extra, h, c, prev, text, new_slot, pn),
    ensures
        forall|hh: int| 1 <= hh <= s1.hash_size_spec() && hh != h ==> s1.chain_ok(hh),
{
    lemma_insert_frame(s0, s1, bytes, extra, h, c, prev, text, new_slot, pn);
    assert forall|hh: int|
        1 <= hh <= s1.hash_size_spec() && hh != h implies s1.chain_ok(hh) by {
        let cc = s0.chains@[hh];
        assert(s1.chains@[hh] == cc);
        assert(s0.chain_ok(hh));
        assert(hh != prev) by {
            if c.len() > 0 {
                assert(s0.is_entry_raw(prev));
            }
        }
        assert(s1.nodes@[hh] == s0.nodes@[hh]);
        assert forall|kk: int| 0 <= kk < cc.len() implies s1.nodes@[#[trigger] cc[kk]]
            == s0.nodes@[cc[kk]] && s1.entry_bytes(cc[kk]) == s0.entry_bytes(cc[kk]) by {
            assert(s0.is_entry_raw(cc[kk]));
            assert(s0.home_of(s0.entry_bytes(cc[kk])) == hh);
            assert(cc[kk] != prev) by {
                if c.len() > 0 && cc[kk] == prev {
                    assert(s0.home_of(s0.entry_bytes(prev)) == h);
                }
            }
        }
    }
}

/// After an insert every entry sits in the chain of its home bucket,
/// and no byte sequence occurs twice.
#[verifier::rlimit(100)]
#[verifier::spinoff_prover]
proof fn lemma_insert_entries(
    s0: SymbolTable,
    s1: SymbolTable,
    bytes: Seq<u8>,
    extra: HashExtra,
    h: int,
    c: Seq<int>,
    prev: int,
    text: usize,
    new_slot: int,
    pn: HashNode,
)
    requires
        insert_shape(s0, s1, bytes, extra, h, c, prev, text, new_slot, pn),
    ensures
        forall|i: int|
            s1.is_entry_raw(i) ==> 1 <= s1.home_of(#[trigger] s1.entry_bytes(i))
                <= s1.hash_size_spec() && s1.chains@[s1.home_of(s1.entry_bytes(i))].contains(i),
        forall|i: int, j: int|
            s1.is_entry_raw(i) && s1.is_entry_raw(j) && i != j ==> #[trigger] s1.entry_bytes(i)
                != #[trigger] s1.entry_bytes(j),
{
    lemma_insert_frame(s0, s1, bytes, extra, h, c, prev, text, new_slot, pn);
    let c1 = c.push(new_slot);
    assert forall|i: int| s1.is_entry_raw(i) implies 1 <= s1.home_of(#[trigger] s1.entry_bytes(i))
        <= s1.hash_size_spec() && s1.chains@[s1.home_of(s1.entry_bytes(i))].contains(i) by {
        if i == new_slot {
            assert(s1.home_of(s1.entry_bytes(i)) == h);
            assert(c1[c1.len() - 1] == i);
            assert(s1.chains@[h].contains(i));
        } else {
            assert(s0.is_entry_raw(i));
            assert(s1.entry_bytes(i) == s0.entry_bytes(i));
            let hh = s0.home_of(s0.entry_bytes(i));
            assert(s0.chains@[hh].contains(i));
            if hh == h {
                let j = choose|j: int| 0 <= j < c.len() && c[j] == i;
                assert(c1[j] == i);
                assert(s1.chains@[hh].contains(i));
            } else {
                assert(s1.chains@[hh] == s0.chains@[hh]);
            }
        }
    }
    assert forall|i: int, j: int|
        s1.is_entry_raw(i) && s1.is_entry_raw(j) && i != j implies #[trigger] s1.entry_bytes(i)
        != #[trigger] s1.entry_bytes(j) by {
        if i == new_slot {
            assert(s0.is_entry_raw(j));
            assert(s1.entry_bytes(j) == s0.entry_bytes(j));
            assert(s0.entry_bytes(j) != bytes);
        } else if j == new_slot {
            assert(s0.is_entry_raw(i));
            assert(s1.entry_bytes(i) == s0.entry_bytes(i));
            assert(s0.entry_bytes(i) != bytes);
        } else {
            assert(s0.is_entry_raw(i) && s0.is_entry_raw(j));
        }
    }
}

/// Rebuilding the invariant after an insert: the table is again well
/// formed and the model grew by exactly the new pair.
#[verifier::rlimit(100)]
#[verifier::spinoff_prover]
proof fn lemma_insert_restores(
    s0: SymbolTable,
    s1: SymbolTable,
    bytes: Seq<u8>,
    extra: HashExtra,
    h: int,
    c: Seq<int>,
    prev: int,
    text: usize,
    new_slot: int,
    pn: HashNode,
)
    requires
        insert_shape(s0, s1, bytes, extra, h, c, prev, text, new_slot, pn),
    ensures
        s1.wf(),
        s1.interned() == s0.interned().push((bytes, extra)),
{
    let base = s0.hash_size_spec() + 1;
    lemma_insert_frame(s0, s1, bytes, extra, h, c, prev, text, new_slot, pn);
    lemma_insert_home_chain(s0, s1, bytes, extra, h, c, prev, text, new_slot, pn);
    lemma_insert_other_chains(s0, s1, bytes, extra, h, c, prev, text, new_slot, pn);
    lemma_insert_entries(s0, s1, bytes, extra, h, c, prev, text, new_slot, pn);
    assert forall|hs: int| 0 <= hs <= s1.hash_size_spec() implies (
    #[trigger] s1.nodes@[hs]).text == 0 by {
        if hs != prev {
            assert(s1.nodes@[hs] == s0.nodes@[hs]);
        }
    }
    assert(s1.nodes@[0].next == 0) by {
        if c.len() > 0 {
            assert(s0.is_entry_raw(prev));
        }
        assert(prev != 0);
        assert(s1.nodes@[0] == s0.nodes@[0]);
    }
    assert forall|i: int| s1.is_entry_raw(i) implies s1.pool.valid_id(
        (#[trigger] s1.nodes@[i]).text as int,
    ) by {
        if i == new_slot {
            assert(s1.nodes@[i].text == text);
        } else {
            assert(s0.is_entry_raw(i));
            assert(s1.nodes@[i].text == s0.nodes@[i].text);
            assert(s0.pool.valid_id(s0.nodes@[i].text as int));
        }
    }
    assert(s1.wf());
    assert(s1.interned() =~~= s0.interned().push((bytes, extra))) by {
        assert(s1.interned().len() == s0.interned().len() + 1);
        assert forall|kk: int| 0 <= kk < s0.interned().len() implies s1.interned()[kk]
            == s0.interned()[kk] by {
            assert(s0.is_entry_raw(base + kk));
            assert(s1.entry_bytes(base + kk) == s0.entry_bytes(base + kk));
        }
        assert(s1.interned()[s0.interned().len() as int].0 == bytes);
        assert(s1.interned()[s0.interned().len() as int].1 == extra);
    }
}

/// Hash `bytes` into `[0, prime)`.
fn hash_bytes(bytes: &Vec<u8>, prime: usize) -> (r: usize)
    requires
        2 <= prime <= 0x1000_0000,
    ensures
        r as int == spec_hash(bytes@, prime as int),
        r < prime,
{
    let mut h: usize = 0;
    let mut i: usize = 0;
    while i < bytes.len()
        invariant
            2 <= prime <= 0x1000_0000,
            i <= bytes@.len(),
            h < prime,
            h as int == spec_hash(bytes@.subrange(0, i as int), prime as int),
        decreases bytes@.len() - i,
    {
        h = (2 * h + bytes[i] as usize) % prime;
        proof {
            assert(bytes@.subrange(0, i as int + 1).drop_last() =~= bytes@.subrange(0, i as int));
            assert(bytes@.subrange(0, i as int + 1).last() == bytes@[i as int]);
        }
        i += 1;
    }
    proof {
        assert(bytes@.subrange(0, bytes@.len() as int) =~= bytes@);
    }
    h
}

/// Byte-for-byte comparison of two stored sequences.
fn bytes_eq(a: &Vec<u8>, b: &Vec<u8>) -> (r: bool)
    ensures
        r == (a@ == b@),
{
    if a.len() != b.len() {
        return false;
    }
    let mut i: usize = 0;
    while i < a.len()
        invariant
            a@.len() == b@.len(),
            i <= a@.len(),
            forall|k: int| 0 <= k < i as int ==> a@[k] == b@[k],
        decreases a@.len() - i,
    {
        if a[i] != b[i] {
            return false;
        }
        i += 1;
    }
    proof {
        assert(a@ =~= b@);
    }
    true
}

/// `m1` carries every pair of `m0` at the same position.
pub open spec fn model_extends(m0: Seq<(Seq<u8>, HashExtra)>, m1: Seq<(Seq<u8>, HashExtra)>) -> bool {
    m0.len() <= m1.len() && forall|k: int| 0 <= k < m0.len() ==> m1[k] == m0[k]
}

/// A byte sequence held by a model is held by every extension of it.
pub proof fn lemma_has_bytes_extends(
    m0: Seq<(Seq<u8>, HashExtra)>,
    m1: Seq<(Seq<u8>, HashExtra)>,
    a: Seq<u8>,
)
    requires
        model_extends(m0, m1),
        has_bytes(m0, a),
    ensures
        has_bytes(m1, a),
{
    let k = choose|k: int| 0 <= k < m0.len() && (#[trigger] m0[k]).0 == a;
    assert(m1[k] == m0[k]);
}

/// Law: two distinct byte sequences held by one table have distinct
/// identifiers.
pub proof fn lemma_distinct_ids(t: SymbolTable, a: Seq<u8>, b: Seq<u8>)
    requires
        t.wf(),
        has_bytes(t.interned(), a),
        has_bytes(t.interned(), b),
        a != b,
    ensures
        t.id_of(a) != t.id_of(b),
{
    let ka = index_of(t.interned(), a);
    let kb = index_of(t.interned(), b);
    assert(0 <= ka < t.interned().len() && t.interned()[ka].0 == a);
    assert(0 <= kb < t.interned().len() && t.interned()[kb].0 == b);
    if ka == kb {
        assert(a == b);
    }
}

/// Law: a byte sequence already held keeps its identifier when any
/// other pair is interned afterwards — older entries are never
/// shadowed by newer ones, in the same bucket or any other.
pub proof fn lemma_no_shadowing(m: Seq<(Seq<u8>, HashExtra)>, x: (Seq<u8>, HashExtra), a: Seq<u8>)
    requires
        distinct_model(m.push(x)),
        has_bytes(m, a),
    ensures
        has_bytes(m.push(x), a),
        index_of(m.push(x), a) == index_of(m, a),
{
    let k = index_of(m, a);
    assert(0 <= k < m.len() && m[k].0 == a);
    assert(m.push(x)[k] == m[k]);
    assert(has_bytes(m.push(x), a));
    let k2 = index_of(m.push(x), a);
    assert(0 <= k2 < m.push(x).len() && m.push(x)[k2].0 == a);
    if k2 != k {
        assert(m.push(x)[k2].0 != m.push(x)[k].0);
    }
}

/// Law: round trip — after interning a pair not held before, the new
/// identifier resolves to exactly that pair.
pub proof fn lemma_round_trip(t1: SymbolTable, m0: Seq<(Seq<u8>, HashExtra)>, bytes: Seq<u8>, extra: HashExtra)
    requires
        t1.wf(),
        t1.interned() == m0.push((bytes, extra)),
        !has_bytes(m0, bytes),
    ensures
        has_bytes(t1.interned(), bytes),
        t1.id_of(bytes) == t1.entry_base() + m0.len(),
        t1.valid_id(t1.id_of(bytes)),
        t1.interned()[t1.id_of(bytes) - t1.entry_base()] == (bytes, extra),
{
    assert(t1.interned()[m0.len() as int].0 == bytes);
    assert(has_bytes(t1.interned(), bytes));
    let k = index_of(t1.interned(), bytes);
    assert(0 <= k < t1.interned().len() && t1.interned()[k].0 == bytes);
    if k != m0.len() {
        assert(t1.interned()[k] == m0[k]);
        assert(has_bytes(m0, bytes));
    }
}

} // verus!
