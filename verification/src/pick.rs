//! Pick buffer encoding and pick-index bookkeeping.
//!
//! Each pickable element is drawn into an offscreen buffer with a color that
//! encodes a global 24-bit index. Structures own contiguous ranges of global
//! indices; index 0 is the background.

use vstd::prelude::*;

verus! {

/// Element type for pick results.
#[derive(Debug, Clone, Copy, PartialEq, Eq, Structural)]
pub enum PickElementType {
    /// No element type (background or unknown).
    NoElement,
    /// A point in a point cloud.
    Point,
    /// A vertex of a mesh.
    Vertex,
    /// A face of a mesh.
    Face,
    /// An edge of a mesh or curve network.
    Edge,
    /// A cell of a volume mesh.
    Cell,
}

impl Default for PickElementType {
    fn default() -> (r: Self)
        ensures
            r == PickElementType::NoElement,
    {
        PickElementType::NoElement
    }
}

/// The index that a pick color (R, G, B) encodes: R holds bits 16-23, G bits
/// 8-15 and B bits 0-7.
pub open spec fn index_of_color(r: u8, g: u8, b: u8) -> int {
    r as int * 65536 + g as int * 256 + b as int
}

/// The low 24 bits of an index, the part that a pick color can carry.
pub open spec fn low_24_bits(index: u32) -> int {
    index as int % 16777216
}

/// Decodes a pick color back to an index.
///
/// The color is encoded as RGB where R contains bits 16-23, G contains bits
/// 8-15 and B contains bits 0-7.
pub fn color_to_index(r: u8, g: u8, b: u8) -> (idx: u32)
    ensures
        idx == index_of_color(r, g, b),
{
    let rr: u32 = r as u32;
    let gg: u32 = g as u32;
    let bb: u32 = b as u32;
    assert((rr << 16u32) | (gg << 8u32) | bb == rr * 65536 + gg * 256 + bb) by (bit_vector)
        requires
            rr < 256,
            gg < 256,
            bb < 256,
    ;
    (rr << 16u32) | (gg << 8u32) | bb
}

/// Encodes an index as a pick color.
///
/// Returns [R, G, B] where R contains bits 16-23, G contains bits 8-15 and B
/// contains bits 0-7; bits 24-31 of the index are dropped.
pub fn index_to_color(index: u32) -> (c: [u8; 3])
    ensures
        c[0] == (index as int / 65536) % 256,
        c[1] == (index as int / 256) % 256,
        c[2] == index as int % 256,
{
    let r: u32 = (index >> 16u32) & 0xFFu32;
    let g: u32 = (index >> 8u32) & 0xFFu32;
    let b: u32 = index & 0xFFu32;
    assert(r == (index / 65536) % 256 && g == (index / 256) % 256 && b == index % 256)
        by (bit_vector)
        requires
            r == (index >> 16u32) & 0xFFu32,
            g == (index >> 8u32) & 0xFFu32,
            b == index & 0xFFu32,
    ;
    [r as u8, g as u8, b as u8]
}

/// Decoding the color of an index gives back the low 24 bits of the index.
pub proof fn lemma_index_color_roundtrip(index: u32)
    ensures
        index_of_color(
            ((index as int / 65536) % 256) as u8,
            ((index as int / 256) % 256) as u8,
            (index as int % 256) as u8,
        ) == low_24_bits(index),
{
    assert(((index / 65536) % 256) * 65536 + ((index / 256) % 256) * 256 + index % 256
        == index % 16777216) by (bit_vector);
}

/// Encoding the index of a color gives back the color.
pub proof fn lemma_color_index_roundtrip(r: u8, g: u8, b: u8)
    ensures
        (index_of_color(r, g, b) / 65536) % 256 == r,
        (index_of_color(r, g, b) / 256) % 256 == g,
        index_of_color(r, g, b) % 256 == b,
        0 <= index_of_color(r, g, b) < 16777216,
{
    let i = r as int * 65536 + g as int * 256 + b as int;
    assert((i / 65536) % 256 == r && (i / 256) % 256 == g && i % 256 == b) by (nonlinear_arith)
        requires
            i == r as int * 65536 + g as int * 256 + b as int,
            0 <= r < 256,
            0 <= g < 256,
            0 <= b < 256,
    ;
}


/// A contiguous range of global pick indices assigned to a structure.
#[derive(Debug, Clone)]
pub struct PickRange {
    /// The starting global index for this structure's elements.
    pub global_start: u32,
    /// Number of elements in this range.
    pub count: u32,
    /// Structure type name (e.g., `PointCloud`, `SurfaceMesh`).
    pub structure_type: String,
    /// Structure name.
    pub name: String,
}

/// A structure is identified by its type name and its name.
pub type StructureKey = (Seq<char>, Seq<char>);

/// The key of the structure that owns a range.
pub open spec fn range_key(r: PickRange) -> StructureKey {
    (r.structure_type@, r.name@)
}

/// Whether the half-open index ranges `[s1, s1 + c1)` and `[s2, s2 + c2)` are disjoint.
pub open spec fn ranges_apart(s1: u32, c1: u32, s2: u32, c2: u32) -> bool {
    s1 + c1 <= s2 || s2 + c2 <= s1
}

/// What the pick ranges always satisfy: every range starts at 1 or later (0
/// is the background), ends at or before the next free index, and no two
/// structures' ranges overlap.
pub open spec fn pick_ranges_sound(m: Map<StructureKey, (u32, u32)>, next: u32) -> bool {
    &&& 1 <= next
    &&& forall|k: StructureKey| #[trigger]
        m.contains_key(k) ==> 1 <= m[k].0 && m[k].0 + m[k].1 <= next
    &&& forall|k1: StructureKey, k2: StructureKey|
        #![trigger m.contains_key(k1), m.contains_key(k2)]
        m.contains_key(k1) && m.contains_key(k2) && k1 != k2 ==> ranges_apart(
            m[k1].0,
            m[k1].1,
            m[k2].0,
            m[k2].1,
        )
}

/// Whether the structure `k` owns the global index `idx`.
pub open spec fn owns_index(m: Map<StructureKey, (u32, u32)>, k: StructureKey, idx: u32) -> bool {
    m.contains_key(k) && m[k].0 <= idx && idx < m[k].0 + m[k].1
}

/// The owner of a global index and the local element index within it, if any
/// structure owns the index.
pub open spec fn pick_owner(m: Map<StructureKey, (u32, u32)>, idx: u32) -> Option<
    (Seq<char>, Seq<char>, u32),
> {
    if exists|k: StructureKey| owns_index(m, k, idx) {
        let k = choose|k: StructureKey| owns_index(m, k, idx);
        Some((k.0, k.1, (idx - m[k].0) as u32))
    } else {
        None
    }
}

/// Global pick-index allocation: each structure owns a contiguous range of
/// indices; allocation is monotonic and index 0 is never handed out.
pub struct PickRangeRegistry {
    ranges: Vec<PickRange>,
    next_global_index: u32,
    assigned: Ghost<Map<StructureKey, (u32, u32)>>,
}

impl PickRangeRegistry {
    /// The ranges currently assigned: structure key to (start, count).
    pub closed spec fn range_map(&self) -> Map<StructureKey, (u32, u32)> {
        self.assigned@
    }

    /// The index at which the next new range will start.
    pub closed spec fn next_index(&self) -> u32 {
        self.next_global_index
    }

    /// Internal consistency of the registry.
    pub closed spec fn wf(&self) -> bool {
        &&& pick_ranges_sound(self.assigned@, self.next_global_index)
        &&& forall|i: int, j: int|
            0 <= i < j < self.ranges@.len() ==> range_key(self.ranges@[i]) != range_key(
                self.ranges@[j],
            )
        &&& forall|i: int|
            #![trigger self.ranges@[i]]
            0 <= i < self.ranges@.len() ==> self.assigned@.contains_key(range_key(self.ranges@[i]))
                && self.assigned@[range_key(self.ranges@[i])] == (
                self.ranges@[i].global_start,
                self.ranges@[i].count,
            )
        &&& forall|k: StructureKey| #[trigger]
            self.assigned@.contains_key(k) ==> exists|i: int|
                0 <= i < self.ranges@.len() && range_key(self.ranges@[i]) == k
    }

    /// The soundness of the ranges follows from the registry's consistency.
    pub proof fn lemma_sound(&self)
        requires
            self.wf(),
        ensures
            pick_ranges_sound(self.range_map(), self.next_index()),
    {
    }

    /// The index at which the next new range will start.
    pub fn next_global_index(&self) -> (r: u32)
        ensures
            r == self.next_index(),
    {
        self.next_global_index
    }

    /// Creates an empty registry; the first range will start at index 1.
    pub fn new() -> (r: Self)
        ensures
            r.wf(),
            r.range_map() == Map::<StructureKey, (u32, u32)>::empty(),
            r.next_index() == 1,
    {
        PickRangeRegistry { ranges: Vec::new(), next_global_index: 1, assigned: Ghost(Map::empty()) }
    }

    /// Position of the range of a structure, if assigned.
    fn find(&self, structure_type: &str, name: &str) -> (r: Option<usize>)
        requires
            self.wf(),
        ensures
            match r {
                Some(i) => i < self.ranges@.len() && range_key(self.ranges@[i as int]) == (
                    structure_type@,
                    name@,
                ),
                None => !self.range_map().contains_key((structure_type@, name@)),
            },
    {
        let mut i: usize = 0;
        while i < self.ranges.len()
            invariant
                self.wf(),
                i <= self.ranges@.len(),
                forall|j: int| 0 <= j < i ==> range_key(self.ranges@[j]) != (structure_type@, name@),
            decreases self.ranges@.len() - i,
        {
            let r = &self.ranges[i];
            if crate::text::str_equal(r.structure_type.as_str(), structure_type) && crate::text::str_equal(
                r.name.as_str(),
                name,
            ) {
                return Some(i);
            }
            i = i + 1;
        }
        None
    }

    /// Assigns a contiguous range of global pick indices to a structure.
    ///
    /// Returns the `global_start` index. The structure owns indices
    /// `[global_start, global_start + num_elements)`. A structure that already
    /// has a range keeps it, and its start is returned.
    pub fn assign_pick_range(&mut self, structure_type: &str, name: &str, num_elements: u32) -> (r:
        u32)
        requires
            old(self).wf(),
            old(self).range_map().contains_key((structure_type@, name@)) || old(self).next_index()
                + num_elements <= u32::MAX,
        ensures
            final(self).wf(),
            old(self).range_map().contains_key((structure_type@, name@)) ==> {
                &&& r == old(self).range_map()[(structure_type@, name@)].0
                &&& final(self).range_map() == old(self).range_map()
                &&& final(self).next_index() == old(self).next_index()
            },
            !old(self).range_map().contains_key((structure_type@, name@)) ==> {
                &&& r == old(self).next_index()
                &&& final(self).range_map() == old(self).range_map().insert(
                    (structure_type@, name@),
                    (r, num_elements),
                )
                &&& final(self).next_index() == old(self).next_index() + num_elements
            },
    {
        match self.find(structure_type, name) {
            Some(i) => {
                return self.ranges[i].global_start;
            },
            None => {},
        }
        let global_start = self.next_global_index;
        let ghost k: StructureKey = (structure_type@, name@);
        let ghost old_map = self.assigned@;
        let ghost old_ranges = self.ranges@;
        let range = PickRange {
            global_start,
            count: num_elements,
            structure_type: structure_type.to_owned(),
            name: name.to_owned(),
        };
        self.ranges.push(range);
        self.next_global_index = global_start + num_elements;
        self.assigned = Ghost(old_map.insert(k, (global_start, num_elements)));
        proof {
            let m = self.assigned@;
            let n = self.ranges@.len() - 1;
            assert(self.ranges@[n as int] == range);
            assert forall|i: int| 0 <= i < n implies self.ranges@[i] == old_ranges[i] by {}
            assert forall|k2: StructureKey| #[trigger] m.contains_key(k2) implies exists|i: int|
                0 <= i < self.ranges@.len() && range_key(self.ranges@[i]) == k2 by {
                if k2 == k {
                    assert(range_key(self.ranges@[n as int]) == k2);
                } else {
                    assert(old_map.contains_key(k2));
                    let i = choose|i: int|
                        0 <= i < old_ranges.len() && range_key(old_ranges[i]) == k2;
                    assert(range_key(self.ranges@[i]) == k2);
                }
            }
            assert forall|i: int, j: int|
                0 <= i < j < self.ranges@.len() implies range_key(self.ranges@[i]) != range_key(
                self.ranges@[j],
            ) by {
                if j == n {
                    assert(old_map.contains_key(range_key(old_ranges[i])));
                }
            }
            assert forall|i: int|
                #![trigger self.ranges@[i]]
                0 <= i < self.ranges@.len() implies m.contains_key(range_key(self.ranges@[i]))
                    && m[range_key(self.ranges@[i])] == (
                    self.ranges@[i].global_start,
                    self.ranges@[i].count,
                ) by {
                if i < n {
                    assert(old_map.contains_key(range_key(old_ranges[i])));
                }
            }
            assert forall|k1: StructureKey, k2: StructureKey|
                #![trigger m.contains_key(k1), m.contains_key(k2)]
                m.contains_key(k1) && m.contains_key(k2) && k1 != k2 implies ranges_apart(
                m[k1].0,
                m[k1].1,
                m[k2].0,
                m[k2].1,
            ) by {
                if k1 != k && k2 != k {
                    assert(old_map.contains_key(k1) && old_map.contains_key(k2));
                } else if k1 == k {
                    assert(old_map.contains_key(k2));
                } else {
                    assert(old_map.contains_key(k1));
                }
            }
            assert forall|k2: StructureKey| #[trigger]
                m.contains_key(k2) implies 1 <= m[k2].0 && m[k2].0 + m[k2].1
                <= self.next_global_index by {
                if k2 != k {
                    assert(old_map.contains_key(k2));
                }
            }
        }
        global_start
    }

    /// Removes a structure's pick range.
    ///
    /// The range is freed but the global index counter is not decremented
    /// (monotonic allocation: freed indices are never handed out again).
    pub fn remove_pick_range(&mut self, structure_type: &str, name: &str)
        requires
            old(self).wf(),
        ensures
            final(self).wf(),
            final(self).range_map() == old(self).range_map().remove((structure_type@, name@)),
            final(self).next_index() == old(self).next_index(),
    {
        match self.find(structure_type, name) {
            None => {
                proof {
                    assert(self.assigned@.remove((structure_type@, name@)) =~= self.assigned@);
                }
            },
            Some(i) => {
                let ghost k: StructureKey = (structure_type@, name@);
                let ghost old_map = self.assigned@;
                let ghost old_ranges = self.ranges@;
                self.ranges.remove(i);
                self.assigned = Ghost(old_map.remove(k));
                proof {
                    let m = self.assigned@;
                    let rs = self.ranges@;
                    assert(rs =~= old_ranges.remove(i as int));
                    assert forall|j: int|
                        #![trigger rs[j]]
                        0 <= j < rs.len() implies m.contains_key(range_key(rs[j])) && m[range_key(
                            rs[j],
                        )] == (rs[j].global_start, rs[j].count) by {
                        if j < i {
                            assert(rs[j] == old_ranges[j]);
                            assert(range_key(old_ranges[j]) != k);
                        } else {
                            assert(rs[j] == old_ranges[j + 1]);
                            assert(range_key(old_ranges[j + 1]) != k);
                        }
                    }
                    assert forall|k2: StructureKey| #[trigger] m.contains_key(k2) implies exists|
                        j: int,
                    | 0 <= j < rs.len() && range_key(rs[j]) == k2 by {
                        let j = choose|j: int|
                            0 <= j < old_ranges.len() && range_key(old_ranges[j]) == k2;
                        assert(j != i);
                        if j < i {
                            assert(range_key(rs[j]) == k2);
                        } else {
                            assert(range_key(rs[j - 1]) == k2);
                        }
                    }
                    assert forall|a: int, b: int|
                        0 <= a < b < rs.len() implies range_key(rs[a]) != range_key(rs[b]) by {
                        let oa = if a < i {
                            a
                        } else {
                            a + 1
                        };
                        let ob = if b < i {
                            b
                        } else {
                            b + 1
                        };
                        assert(rs[a] == old_ranges[oa]);
                        assert(rs[b] == old_ranges[ob]);
                    }
                    assert forall|k1: StructureKey, k2: StructureKey|
                        #![trigger m.contains_key(k1), m.contains_key(k2)]
                        m.contains_key(k1) && m.contains_key(k2) && k1 != k2 implies ranges_apart(
                        m[k1].0,
                        m[k1].1,
                        m[k2].0,
                        m[k2].1,
                    ) by {
                        assert(old_map.contains_key(k1) && old_map.contains_key(k2));
                    }
                    assert forall|k2: StructureKey| #[trigger]
                        m.contains_key(k2) implies 1 <= m[k2].0 && m[k2].0 + m[k2].1
                        <= self.next_global_index by {
                        assert(old_map.contains_key(k2));
                    }
                }
            },
        }
    }

    /// Looks up which structure owns a global pick index.
    ///
    /// Returns `(structure_type, name, local_element_index)`, or `None` if no
    /// structure owns this index (background or freed range).
    pub fn lookup_global_index(&self, global_index: u32) -> (r: Option<(&str, &str, u32)>)
        requires
            self.wf(),
        ensures
            match r {
                Some((t, n, local)) => pick_owner(self.range_map(), global_index) == Some(
                    (t@, n@, local),
                ),
                None => pick_owner(self.range_map(), global_index) is None,
            },
    {
        let mut i: usize = 0;
        while i < self.ranges.len()
            invariant
                self.wf(),
                i <= self.ranges@.len(),
                forall|j: int|
                    0 <= j < i ==> !(self.ranges@[j].global_start <= global_index
                        && global_index < self.ranges@[j].global_start + self.ranges@[j].count),
            decreases self.ranges@.len() - i,
        {
            let range = &self.ranges[i];
            if global_index >= range.global_start && global_index - range.global_start
                < range.count {
                let local = global_index - range.global_start;
                proof {
                    let m = self.assigned@;
                    let k = range_key(self.ranges@[i as int]);
                    assert(m.contains_key(k));
                    assert(owns_index(m, k, global_index));
                    let c = choose|c: StructureKey| owns_index(m, c, global_index);
                    assert(owns_index(m, c, global_index));
                    if c != k {
                        assert(ranges_apart(m[c].0, m[c].1, m[k].0, m[k].1));
                    }
                }
                return Some((range.structure_type.as_str(), range.name.as_str(), local));
            }
            i = i + 1;
        }
        proof {
            let m = self.assigned@;
            if exists|k: StructureKey| owns_index(m, k, global_index) {
                let k = choose|k: StructureKey| owns_index(m, k, global_index);
                assert(m.contains_key(k));
                let j = choose|j: int| 0 <= j < self.ranges@.len() && range_key(self.ranges@[j]) == k;
                assert(self.ranges@[j].global_start <= global_index);
            }
        }
        None
    }

    /// Gets the `global_start` for a structure's pick range, if assigned.
    pub fn get_pick_range_start(&self, structure_type: &str, name: &str) -> (r: Option<u32>)
        requires
            self.wf(),
        ensures
            r == (if self.range_map().contains_key((structure_type@, name@)) {
                Some(self.range_map()[(structure_type@, name@)].0)
            } else {
                None::<u32>
            }),
    {
        match self.find(structure_type, name) {
            Some(i) => Some(self.ranges[i].global_start),
            None => None,
        }
    }
}


/// Index 0 (the background color) never belongs to a structure.
pub proof fn lemma_background_unowned(m: Map<StructureKey, (u32, u32)>, next: u32)
    requires
        pick_ranges_sound(m, next),
    ensures
        pick_owner(m, 0) is None,
{
    if exists|k: StructureKey| owns_index(m, k, 0) {
        let k = choose|k: StructureKey| owns_index(m, k, 0);
        assert(m.contains_key(k));
    }
}

/// Every index inside a range has a unique owner: the structure whose range
/// contains it, with the offset into that range as local element index.
pub proof fn lemma_owner_of_range_member(
    m: Map<StructureKey, (u32, u32)>,
    next: u32,
    k: StructureKey,
    offset: u32,
)
    requires
        pick_ranges_sound(m, next),
        m.contains_key(k),
        offset < m[k].1,
    ensures
        pick_owner(m, (m[k].0 + offset) as u32) == Some((k.0, k.1, offset)),
{
    let idx = (m[k].0 + offset) as u32;
    assert(owns_index(m, k, idx));
    let c = choose|c: StructureKey| owns_index(m, c, idx);
    if c != k {
        assert(ranges_apart(m[c].0, m[c].1, m[k].0, m[k].1));
    }
}

/// A freshly assigned range keeps the registry sound, and each of its
/// indices decodes to the new structure with the offset as local index.
pub proof fn lemma_fresh_range_lookup(
    m: Map<StructureKey, (u32, u32)>,
    next: u32,
    k: StructureKey,
    count: u32,
    offset: u32,
)
    requires
        pick_ranges_sound(m, next),
        !m.contains_key(k),
        next + count <= u32::MAX,
        offset < count,
    ensures
        pick_ranges_sound(m.insert(k, (next, count)), (next + count) as u32),
        pick_owner(m.insert(k, (next, count)), (next + offset) as u32) == Some(
            (k.0, k.1, offset),
        ),
{
    let m2 = m.insert(k, (next, count));
    let n2 = (next + count) as u32;
    assert forall|k1: StructureKey, k2: StructureKey|
        #![trigger m2.contains_key(k1), m2.contains_key(k2)]
        m2.contains_key(k1) && m2.contains_key(k2) && k1 != k2 implies ranges_apart(
        m2[k1].0,
        m2[k1].1,
        m2[k2].0,
        m2[k2].1,
    ) by {
        if k1 != k && k2 != k {
            assert(m.contains_key(k1) && m.contains_key(k2));
        } else if k1 == k {
            assert(m.contains_key(k2));
        } else {
            assert(m.contains_key(k1));
        }
    }
    assert forall|k1: StructureKey| #[trigger]
        m2.contains_key(k1) implies 1 <= m2[k1].0 && m2[k1].0 + m2[k1].1 <= n2 by {
        if k1 != k {
            assert(m.contains_key(k1));
        }
    }
    lemma_owner_of_range_member(m2, n2, k, offset);
}

/// After a structure's range is removed, no index decodes to that structure
/// any more, and the remaining ranges stay sound.
pub proof fn lemma_removed_range_unowned(
    m: Map<StructureKey, (u32, u32)>,
    next: u32,
    k: StructureKey,
    idx: u32,
)
    requires
        pick_ranges_sound(m, next),
    ensures
        pick_ranges_sound(m.remove(k), next),
        pick_owner(m.remove(k), idx) matches Some((t, n, _)) ==> (t, n) != k,
{
    let m2 = m.remove(k);
    assert forall|k1: StructureKey, k2: StructureKey|
        #![trigger m2.contains_key(k1), m2.contains_key(k2)]
        m2.contains_key(k1) && m2.contains_key(k2) && k1 != k2 implies ranges_apart(
        m2[k1].0,
        m2[k1].1,
        m2[k2].0,
        m2[k2].1,
    ) by {
        assert(m.contains_key(k1) && m.contains_key(k2));
    }
    assert forall|k1: StructureKey| #[trigger]
        m2.contains_key(k1) implies 1 <= m2[k1].0 && m2[k1].0 + m2[k1].1 <= next by {
        assert(m.contains_key(k1));
    }
    if exists|c: StructureKey| owns_index(m2, c, idx) {
        let c = choose|c: StructureKey| owns_index(m2, c, idx);
        assert(m2.contains_key(c));
    }
}


/// One registered structure and its pick ID.
#[derive(Debug)]
struct StructureIdEntry {
    id: u16,
    structure_type: String,
    name: String,
}

/// The key of the structure of an ID entry.
spec fn entry_key(e: StructureIdEntry) -> StructureKey {
    (e.structure_type@, e.name@)
}

/// What the structure IDs always satisfy: IDs run from 1 (0 is the
/// background) to below the next free ID, and the forward and reverse maps
/// are inverse to each other.
pub open spec fn structure_ids_sound(
    ids: Map<StructureKey, u16>,
    owners: Map<u16, StructureKey>,
    next: u16,
) -> bool {
    &&& 1 <= next
    &&& forall|k: StructureKey| #[trigger]
        ids.contains_key(k) ==> 1 <= ids[k] < next && owners.contains_key(ids[k]) && owners[ids[k]]
            == k
    &&& forall|id: u16| #[trigger]
        owners.contains_key(id) ==> ids.contains_key(owners[id]) && ids[owners[id]] == id
}

/// Per-structure pick IDs (one 16-bit ID per structure), handed out in
/// increasing order starting at 1; 0 stands for the background.
pub struct StructureIdRegistry {
    entries: Vec<StructureIdEntry>,
    next_structure_id: u16,
    ids: Ghost<Map<StructureKey, u16>>,
    owners: Ghost<Map<u16, StructureKey>>,
}

impl StructureIdRegistry {
    /// The ID of each registered structure.
    pub closed spec fn id_map(&self) -> Map<StructureKey, u16> {
        self.ids@
    }

    /// The structure of each registered ID.
    pub closed spec fn owner_map(&self) -> Map<u16, StructureKey> {
        self.owners@
    }

    /// The ID that the next new structure will get.
    pub closed spec fn next_id(&self) -> u16 {
        self.next_structure_id
    }

    /// Internal consistency of the registry.
    pub closed spec fn wf(&self) -> bool {
        &&& structure_ids_sound(self.ids@, self.owners@, self.next_structure_id)
        &&& forall|i: int|
            #![trigger self.entries@[i]]
            0 <= i < self.entries@.len() ==> self.ids@.contains_key(entry_key(self.entries@[i]))
                && self.ids@[entry_key(self.entries@[i])] == self.entries@[i].id
        &&& forall|k: StructureKey| #[trigger]
            self.ids@.contains_key(k) ==> exists|i: int|
                0 <= i < self.entries@.len() && entry_key(self.entries@[i]) == k
        &&& forall|i: int, j: int|
            0 <= i < j < self.entries@.len() ==> entry_key(self.entries@[i]) != entry_key(
                self.entries@[j],
            )
    }

    /// The ID maps are sound whenever the registry is consistent.
    pub proof fn lemma_sound(&self)
        requires
            self.wf(),
        ensures
            structure_ids_sound(self.id_map(), self.owner_map(), self.next_id()),
    {
    }

    /// The ID that the next new structure will get.
    pub fn next_structure_id(&self) -> (r: u16)
        ensures
            r == self.next_id(),
    {
        self.next_structure_id
    }

    /// Creates an empty registry; the first ID handed out is 1.
    pub fn new() -> (r: Self)
        ensures
            r.wf(),
            r.id_map() == Map::<StructureKey, u16>::empty(),
            r.owner_map() == Map::<u16, StructureKey>::empty(),
            r.next_id() == 1,
    {
        StructureIdRegistry {
            entries: Vec::new(),
            next_structure_id: 1,
            ids: Ghost(Map::empty()),
            owners: Ghost(Map::empty()),
        }
    }

    /// Position of the entry of a structure, if registered.
    fn find(&self, structure_type: &str, name: &str) -> (r: Option<usize>)
        requires
            self.wf(),
        ensures
            match r {
                Some(i) => i < self.entries@.len() && entry_key(self.entries@[i as int]) == (
                    structure_type@,
                    name@,
                ),
                None => !self.id_map().contains_key((structure_type@, name@)),
            },
    {
        let mut i: usize = 0;
        while i < self.entries.len()
            invariant
                self.wf(),
                i <= self.entries@.len(),
                forall|j: int|
                    0 <= j < i ==> entry_key(self.entries@[j]) != (structure_type@, name@),
            decreases self.entries@.len() - i,
        {
            let e = &self.entries[i];
            if crate::text::str_equal(e.structure_type.as_str(), structure_type)
                && crate::text::str_equal(e.name.as_str(), name) {
                return Some(i);
            }
            i = i + 1;
        }
        None
    }

    /// Assigns a unique pick ID to a structure and returns it; a structure
    /// that already has an ID keeps it.
    pub fn assign_structure_id(&mut self, structure_type: &str, name: &str) -> (r: u16)
        requires
            old(self).wf(),
            old(self).id_map().contains_key((structure_type@, name@)) || old(self).next_id()
                < u16::MAX,
        ensures
            final(self).wf(),
            old(self).id_map().contains_key((structure_type@, name@)) ==> {
                &&& r == old(self).id_map()[(structure_type@, name@)]
                &&& final(self).id_map() == old(self).id_map()
                &&& final(self).owner_map() == old(self).owner_map()
                &&& final(self).next_id() == old(self).next_id()
            },
            !old(self).id_map().contains_key((structure_type@, name@)) ==> {
                &&& r == old(self).next_id()
                &&& final(self).id_map() == old(self).id_map().insert((structure_type@, name@), r)
                &&& final(self).owner_map() == old(self).owner_map().insert(
                    r,
                    (structure_type@, name@),
                )
                &&& final(self).next_id() == old(self).next_id() + 1
            },
    {
        match self.find(structure_type, name) {
            Some(i) => {
                return self.entries[i].id;
            },
            None => {},
        }
        let id = self.next_structure_id;
        let ghost k: StructureKey = (structure_type@, name@);
        let ghost old_ids = self.ids@;
        let ghost old_owners = self.owners@;
        let ghost old_entries = self.entries@;
        proof {
            if old_owners.contains_key(id) {
                assert(old_ids.contains_key(old_owners[id]));
            }
        }
        let entry = StructureIdEntry {
            id,
            structure_type: structure_type.to_owned(),
            name: name.to_owned(),
        };
        self.entries.push(entry);
        self.next_structure_id = id + 1;
        self.ids = Ghost(old_ids.insert(k, id));
        self.owners = Ghost(old_owners.insert(id, k));
        proof {
            let ids = self.ids@;
            let owners = self.owners@;
            let es = self.entries@;
            let n = es.len() - 1;
            assert(es[n as int] == entry);
            assert forall|i: int| 0 <= i < n implies es[i] == old_entries[i] by {}
            assert forall|k2: StructureKey| #[trigger]
                ids.contains_key(k2) implies 1 <= ids[k2] < self.next_structure_id
                && owners.contains_key(ids[k2]) && owners[ids[k2]] == k2 by {
                if k2 != k {
                    assert(old_ids.contains_key(k2));
                }
            }
            assert forall|id2: u16| #[trigger]
                owners.contains_key(id2) implies ids.contains_key(owners[id2]) && ids[owners[id2]]
                == id2 by {
                if id2 != id {
                    assert(old_owners.contains_key(id2));
                    assert(old_ids.contains_key(old_owners[id2]));
                    if old_owners[id2] == k {
                        assert(false);
                    }
                }
            }
            assert forall|i: int|
                #![trigger es[i]]
                0 <= i < es.len() implies ids.contains_key(entry_key(es[i])) && ids[entry_key(
                    es[i],
                )] == es[i].id by {
                if i < n {
                    assert(old_ids.contains_key(entry_key(old_entries[i])));
                }
            }
            assert forall|k2: StructureKey| #[trigger] ids.contains_key(k2) implies exists|i: int|
                0 <= i < es.len() && entry_key(es[i]) == k2 by {
                if k2 == k {
                    assert(entry_key(es[n as int]) == k2);
                } else {
                    assert(old_ids.contains_key(k2));
                    let i = choose|i: int|
                        0 <= i < old_entries.len() && entry_key(old_entries[i]) == k2;
                    assert(entry_key(es[i]) == k2);
                }
            }
            assert forall|i: int, j: int|
                0 <= i < j < es.len() implies entry_key(es[i]) != entry_key(es[j]) by {
                if j == n {
                    assert(old_ids.contains_key(entry_key(old_entries[i])));
                }
            }
        }
        id
    }

    /// Removes a structure's pick ID (from both directions).
    pub fn remove_structure_id(&mut self, structure_type: &str, name: &str)
        requires
            old(self).wf(),
        ensures
            final(self).wf(),
            final(self).next_id() == old(self).next_id(),
            old(self).id_map().contains_key((structure_type@, name@)) ==> {
                &&& final(self).id_map() == old(self).id_map().remove((structure_type@, name@))
                &&& final(self).owner_map() == old(self).owner_map().remove(
                    old(self).id_map()[(structure_type@, name@)],
                )
            },
            !old(self).id_map().contains_key((structure_type@, name@)) ==> {
                &&& final(self).id_map() == old(self).id_map()
                &&& final(self).owner_map() == old(self).owner_map()
            },
    {
        match self.find(structure_type, name) {
            None => {},
            Some(i) => {
                let ghost k: StructureKey = (structure_type@, name@);
                let ghost old_ids = self.ids@;
                let ghost old_owners = self.owners@;
                let ghost old_entries = self.entries@;
                let ghost id = old_ids[k];
                self.entries.remove(i);
                self.ids = Ghost(old_ids.remove(k));
                self.owners = Ghost(old_owners.remove(id));
                proof {
                    let ids = self.ids@;
                    let owners = self.owners@;
                    let es = self.entries@;
                    assert(es =~= old_entries.remove(i as int));
                    assert forall|k2: StructureKey| #[trigger]
                        ids.contains_key(k2) implies 1 <= ids[k2] < self.next_structure_id
                        && owners.contains_key(ids[k2]) && owners[ids[k2]] == k2 by {
                        assert(old_ids.contains_key(k2));
                        assert(old_owners.contains_key(old_ids[k2]));
                        if old_ids[k2] == id {
                            assert(old_owners[id] == k);
                        }
                    }
                    assert forall|id2: u16| #[trigger]
                        owners.contains_key(id2) implies ids.contains_key(owners[id2])
                        && ids[owners[id2]] == id2 by {
                        assert(old_owners.contains_key(id2));
                        assert(old_ids.contains_key(old_owners[id2]));
                    }
                    assert forall|j: int|
                        #![trigger es[j]]
                        0 <= j < es.len() implies ids.contains_key(entry_key(es[j])) && ids[entry_key(
                            es[j],
                        )] == es[j].id by {
                        if j < i {
                            assert(es[j] == old_entries[j]);
                            assert(entry_key(old_entries[j]) != k);
                        } else {
                            assert(es[j] == old_entries[j + 1]);
                            assert(entry_key(old_entries[j + 1]) != k);
                        }
                    }
                    assert forall|k2: StructureKey| #[trigger] ids.contains_key(k2) implies exists|
                        j: int,
                    | 0 <= j < es.len() && entry_key(es[j]) == k2 by {
                        let j = choose|j: int|
                            0 <= j < old_entries.len() && entry_key(old_entries[j]) == k2;
                        assert(j != i);
                        if j < i {
                            assert(entry_key(es[j]) == k2);
                        } else {
                            assert(entry_key(es[j - 1]) == k2);
                        }
                    }
                    assert forall|a: int, b: int|
                        0 <= a < b < es.len() implies entry_key(es[a]) != entry_key(es[b]) by {
                        let oa = if a < i {
                            a
                        } else {
                            a + 1
                        };
                        let ob = if b < i {
                            b
                        } else {
                            b + 1
                        };
                        assert(es[a] == old_entries[oa]);
                        assert(es[b] == old_entries[ob]);
                    }
                }
            },
        }
    }

    /// Looks up the structure that a pick ID belongs to.
    pub fn lookup_structure_id(&self, id: u16) -> (r: Option<(&str, &str)>)
        requires
            self.wf(),
        ensures
            match r {
                Some((t, n)) => self.owner_map().contains_key(id) && self.owner_map()[id] == (
                    t@,
                    n@,
                ),
                None => !self.owner_map().contains_key(id),
            },
    {
        let mut i: usize = 0;
        while i < self.entries.len()
            invariant
                self.wf(),
                i <= self.entries@.len(),
                forall|j: int| 0 <= j < i ==> self.entries@[j].id != id,
            decreases self.entries@.len() - i,
        {
            let e = &self.entries[i];
            if e.id == id {
                proof {
                    assert(self.ids@.contains_key(entry_key(self.entries@[i as int])));
                }
                return Some((e.structure_type.as_str(), e.name.as_str()));
            }
            i = i + 1;
        }
        proof {
            if self.owners@.contains_key(id) {
                let k = self.owners@[id];
                assert(self.ids@.contains_key(k));
                let j = choose|j: int| 0 <= j < self.entries@.len() && entry_key(self.entries@[j]) == k;
                assert(self.entries@[j].id == id);
            }
        }
        None
    }

    /// Gets the pick ID of a structure, if assigned.
    pub fn get_structure_id(&self, structure_type: &str, name: &str) -> (r: Option<u16>)
        requires
            self.wf(),
        ensures
            r == (if self.id_map().contains_key((structure_type@, name@)) {
                Some(self.id_map()[(structure_type@, name@)])
            } else {
                None::<u16>
            }),
    {
        match self.find(structure_type, name) {
            Some(i) => Some(self.entries[i].id),
            None => None,
        }
    }
}

/// Looking up the ID just assigned to a structure names that structure, and
/// distinct structures never share an ID.
pub proof fn lemma_structure_id_roundtrip(
    ids: Map<StructureKey, u16>,
    owners: Map<u16, StructureKey>,
    next: u16,
    k1: StructureKey,
    k2: StructureKey,
)
    requires
        structure_ids_sound(ids, owners, next),
        ids.contains_key(k1),
    ensures
        owners.contains_key(ids[k1]) && owners[ids[k1]] == k1,
        ids.contains_key(k2) && k1 != k2 ==> ids[k1] != ids[k2],
        !owners.contains_key(0),
{
    if ids.contains_key(k2) {
        assert(owners[ids[k2]] == k2);
    }
    if owners.contains_key(0) {
        assert(ids.contains_key(owners[0]));
    }
}

} // verus!
