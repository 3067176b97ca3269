use vstd::prelude::*;
use std::collections::HashMap;

verus! {

broadcast use vstd::std_specs::hash::group_hash_axioms;

/// The single integer that stands for a key triple: each part shifted to be
/// non-negative and given its own 32 bits.
pub open spec fn pack(a: int, b: int, c: int) -> int {
    (a + 0x8000_0000) * 0x1_0000_0000_0000_0000 + (b + 0x8000_0000) * 0x1_0000_0000 + (c
        + 0x8000_0000)
}

/// The hash map key of a triple.
pub open spec fn key_of(k: (i32, i32, i32)) -> u128 {
    pack(k.0 as int, k.1 as int, k.2 as int) as u128
}

/// Two triples of 32-bit integers with the same packed key are equal.
proof fn lemma_pack_injective(a1: i32, b1: i32, c1: i32, a2: i32, b2: i32, c2: i32)
    requires
        pack(a1 as int, b1 as int, c1 as int) == pack(a2 as int, b2 as int, c2 as int),
    ensures
        a1 == a2 && b1 == b2 && c1 == c2,
{
    let (x1, y1, z1) = (a1 + 0x8000_0000, b1 + 0x8000_0000, c1 + 0x8000_0000);
    let (x2, y2, z2) = (a2 + 0x8000_0000, b2 + 0x8000_0000, c2 + 0x8000_0000);
    assert(x1 == x2 && y1 == y2 && z1 == z2) by (nonlinear_arith)
        requires
            0 <= y1 < 0x1_0000_0000,
            0 <= z1 < 0x1_0000_0000,
            0 <= y2 < 0x1_0000_0000,
            0 <= z2 < 0x1_0000_0000,
            x1 * 0x1_0000_0000_0000_0000 + y1 * 0x1_0000_0000 + z1 == x2 * 0x1_0000_0000_0000_0000
                + y2 * 0x1_0000_0000 + z2,
    ;
}

fn pack_key(a: i32, b: i32, c: i32) -> (r: u128)
    ensures
        r == pack(a as int, b as int, c as int),
        r == key_of((a, b, c)),
{
    let x = (a as i64 + 0x8000_0000i64) as u128;
    let y = (b as i64 + 0x8000_0000i64) as u128;
    let z = (c as i64 + 0x8000_0000i64) as u128;
    assert(x * 0x1_0000_0000_0000_0000 + y * 0x1_0000_0000 + z < 0x1_0000_0000_0000_0000_0000_0000)
        by (nonlinear_arith)
        requires
            x < 0x1_0000_0000,
            y < 0x1_0000_0000,
            z < 0x1_0000_0000,
    ;
    let r = x * 0x1_0000_0000_0000_0000u128 + y * 0x1_0000_0000u128 + z;
    assert(r == pack(a as int, b as int, c as int) as u128);
    r
}

/// A map from triples of 32-bit integers to ids.
pub struct Table {
    table: HashMap<u128, usize>,
    entries: Ghost<Map<(i32, i32, i32), usize>>,
}

impl View for Table {
    type V = Map<(i32, i32, i32), usize>;

    closed spec fn view(&self) -> Map<(i32, i32, i32), usize> {
        self.entries@
    }
}

impl Table {
    /// The ghost map agrees with the hash map under `pack`, and both are finite
    /// with one entry for each triple.
    pub closed spec fn wf(&self) -> bool {
        &&& self.entries@.dom().finite()
        &&& self.table@.len() == self.entries@.len()
        &&& forall|k: (i32, i32, i32)| #[trigger]
            self.entries@.contains_key(k) ==> self.table@.contains_key(
                key_of(k),
            ) && self.table@[key_of(k)]
                == self.entries@[k]
        &&& forall|k: (i32, i32, i32)| #[trigger]
            self.table@.contains_key(key_of(k))
                ==> self.entries@.contains_key(k)
    }

    /// A table holds finitely many triples.
    pub proof fn lemma_finite(&self)
        requires
            self.wf(),
        ensures
            self@.dom().finite(),
    {
    }

    pub fn new() -> (r: Table)
        ensures
            r.wf(),
            r@ == Map::<(i32, i32, i32), usize>::empty(),
    {
        Table { table: HashMap::new(), entries: Ghost(Map::empty()) }
    }

    /// The number of triples held.
    pub fn len(&self) -> (r: usize)
        requires
            self.wf(),
        ensures
            r == self@.len(),
    {
        self.table.len()
    }

    pub fn get(&self, a: i32, b: i32, c: i32) -> (r: Option<usize>)
        requires
            self.wf(),
        ensures
            r == (if self@.contains_key((a, b, c)) {
                Some(self@[(a, b, c)])
            } else {
                None
            }),
    {
        let key = pack_key(a, b, c);
        assert(self.table@.contains_key(key_of((a, b, c))) ==> self@.contains_key((a, b, c)));
        match self.table.get(&key) {
            Some(v) => Some(*v),
            None => None,
        }
    }

    pub fn set(&mut self, a: i32, b: i32, c: i32, v: usize)
        requires
            old(self).wf(),
        ensures
            final(self).wf(),
            final(self)@ == old(self)@.insert((a, b, c), v),
    {
        let key = pack_key(a, b, c);
        let ghost k = (a, b, c);
        proof {
            assert(self.table@.contains_key(key_of(k)) ==> self.entries@.contains_key(k));
            assert forall|k2: (i32, i32, i32)| #[trigger]
                self.table@.contains_key(key_of(k2)) &&
                key_of(k2) == key implies k2 == k by {
                lemma_pack_injective(k2.0, k2.1, k2.2, a, b, c);
            }
        }
        self.table.insert(key, v);
        self.entries = Ghost(self.entries@.insert(k, v));
        proof {
            assert forall|k2: (i32, i32, i32)| #[trigger]
                self.table@.contains_key(key_of(k2))
                implies self.entries@.contains_key(k2) by {
                if key_of(k2) == key {
                    lemma_pack_injective(k2.0, k2.1, k2.2, a, b, c);
                }
            }
            assert forall|k2: (i32, i32, i32)| #[trigger]
                self.entries@.contains_key(k2) implies self.table@.contains_key(
                    key_of(k2),
                ) && self.table@[key_of(k2)]
                    == self.entries@[k2] by {
                if key_of(k2) == key {
                    lemma_pack_injective(k2.0, k2.1, k2.2, a, b, c);
                }
            }
        }
    }
}

} // verus!
