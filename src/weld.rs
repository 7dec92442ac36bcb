use std::collections::HashMap;
use vstd::prelude::*;

use crate::geometry::Vertex;

verus! {

broadcast use vstd::std_specs::hash::group_hash_axioms;

/// The weld key of a position: its three fixed-point coordinates, each moved
/// into `0 .. 2^32` and packed into one integer.
pub open spec fn weld_key(v: Vertex) -> int {
    (v.x + 0x8000_0000) * 0x1_0000_0000_0000_0000 + (v.y + 0x8000_0000) * 0x1_0000_0000 + (v.z
        + 0x8000_0000)
}

/// Two positions share a weld key only when they are the same position.
pub proof fn lemma_weld_key_injective(a: Vertex, b: Vertex)
    ensures
        weld_key(a) == weld_key(b) <==> a == b,
{
}

/// The quantized position that vertices are welded by.
#[derive(Clone, Copy, Debug, PartialEq, Eq, Structural, Hash)]
pub struct Vector3Hash {
    pub x: i32,
    pub y: i32,
    pub z: i32,
}

impl Vector3Hash {
    /// The key of a position. Positions are already on the fixed-point grid,
    /// so quantizing keeps every coordinate.
    pub fn from_vector3(v: Vertex) -> (h: Vector3Hash)
        ensures
            h.x == v.x && h.y == v.y && h.z == v.z,
    {
        Vector3Hash { x: v.x, y: v.y, z: v.z }
    }

    /// The key packed into one integer, for lookup in a hash table.
    pub fn packed(&self) -> (k: u128)
        ensures
            k == weld_key(Vertex { x: self.x, y: self.y, z: self.z }),
    {
        let x: u128 = (self.x as i64 + 0x8000_0000) as u128;
        let y: u128 = (self.y as i64 + 0x8000_0000) as u128;
        let z: u128 = (self.z as i64 + 0x8000_0000) as u128;
        x * 0x1_0000_0000_0000_0000 + y * 0x1_0000_0000 + z
    }
}

/// `s` with `v` appended, unless `s` already holds `v`.
pub open spec fn push_unique(s: Seq<Vertex>, v: Vertex) -> Seq<Vertex> {
    if s.contains(v) {
        s
    } else {
        s.push(v)
    }
}

/// The positions of `s` in order of first appearance, each once.
pub open spec fn dedup(s: Seq<Vertex>) -> Seq<Vertex>
    decreases s.len(),
{
    if s.len() == 0 {
        Seq::empty()
    } else {
        push_unique(dedup(s.drop_last()), s.last())
    }
}

pub proof fn lemma_dedup_push(s: Seq<Vertex>, v: Vertex)
    ensures
        dedup(s.push(v)) == push_unique(dedup(s), v),
{
    assert(s.push(v).drop_last() =~= s);
}

/// What `dedup` keeps came from its argument, and nothing appears twice.
pub proof fn lemma_dedup_elements(s: Seq<Vertex>)
    ensures
        forall|i: int| 0 <= i < dedup(s).len() ==> s.contains(#[trigger] dedup(s)[i]),
        forall|v: Vertex| s.contains(v) ==> #[trigger] dedup(s).contains(v),
        dedup(s).no_duplicates(),
        dedup(s).len() <= s.len(),
    decreases s.len(),
{
    if s.len() > 0 {
        let p = s.drop_last();
        lemma_dedup_elements(p);
        assert(s =~= p.push(s.last()));
        assert forall|i: int| 0 <= i < dedup(s).len() implies s.contains(#[trigger] dedup(s)[i]) by {
            if i < dedup(p).len() {
                let j = choose|j: int| 0 <= j < p.len() && p[j] == dedup(p)[i];
                assert(s[j] == p[j]);
            } else {
                assert(s[s.len() - 1] == s.last());
            }
        }
        assert forall|v: Vertex| s.contains(v) implies #[trigger] dedup(s).contains(v) by {
            let j = choose|j: int| 0 <= j < s.len() && s[j] == v;
            if j < p.len() {
                assert(p[j] == v);
                assert(p.contains(v));
                assert(dedup(p).contains(v));
                let k = choose|k: int| 0 <= k < dedup(p).len() && dedup(p)[k] == v;
                assert(dedup(s)[k] == v);
            } else {
                if !dedup(p).contains(v) {
                    assert(dedup(s)[dedup(p).len() as int] == v);
                }
            }
        }
    }
}

/// A vertex buffer together with a table from weld key to index, so that
/// each position is stored once.
pub struct WeldTable {
    keys: HashMap<u128, u32>,
    vertices: Vec<Vertex>,
}

impl WeldTable {
    pub closed spec fn view(&self) -> Seq<Vertex> {
        self.vertices@
    }

    /// Every stored position is under its own key, and every key leads to the
    /// position that it was made from.
    pub closed spec fn wf(&self) -> bool {
        &&& self.vertices@.len() <= u32::MAX
        &&& forall|k: u128| #[trigger]
            self.keys@.contains_key(k) ==> {
                &&& (self.keys@[k] as int) < self.vertices@.len()
                &&& weld_key(self.vertices@[self.keys@[k] as int]) == k
            }
        &&& forall|i: int|
            0 <= i < self.vertices@.len() ==> {
                &&& self.keys@.contains_key(weld_key(#[trigger] self.vertices@[i]) as u128)
                &&& self.keys@[weld_key(self.vertices@[i]) as u128] == i
            }
    }

    pub fn new() -> (t: WeldTable)
        ensures
            t.wf(),
            t@ == Seq::<Vertex>::empty(),
    {
        WeldTable { keys: HashMap::new(), vertices: Vec::new() }
    }

    /// The index of `v`: the one it already has, or a new one at the end.
    pub fn find_or_add(&mut self, v: Vertex) -> (r: u32)
        requires
            old(self).wf(),
            old(self)@.len() < u32::MAX,
        ensures
            final(self).wf(),
            final(self)@ == push_unique(old(self)@, v),
            (r as int) < final(self)@.len(),
            final(self)@[r as int] == v,
    {
        let key = Vector3Hash::from_vector3(v).packed();
        proof {
            assert(weld_key(v) == key);
        }
        match self.keys.get(&key) {
            Some(index) => {
                let r = *index;
                proof {
                    lemma_weld_key_injective(self.vertices@[r as int], v);
                }
                r
            },
            None => {
                proof {
                    if self@.contains(v) {
                        let i = choose|i: int| 0 <= i < self@.len() && self@[i] == v;
                        assert(self.keys@.contains_key(weld_key(self.vertices@[i]) as u128));
                    }
                }
                let index = self.vertices.len() as u32;
                self.keys.insert(key, index);
                self.vertices.push(v);
                proof {
                    assert forall|i: int|
                        0 <= i < self.vertices@.len() implies {
                        &&& self.keys@.contains_key(weld_key(#[trigger] self.vertices@[i]) as u128)
                        &&& self.keys@[weld_key(self.vertices@[i]) as u128] == i
                    } by {
                        if i < index {
                            lemma_weld_key_injective(self.vertices@[i], v);
                        }
                    }
                }
                index
            },
        }
    }

    /// The stored positions, handed out.
    pub fn into_vertices(self) -> (vs: Vec<Vertex>)
        ensures
            vs@ == self@,
    {
        self.vertices
    }
}

} // verus!
