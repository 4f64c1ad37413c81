//! Color map registry: named color maps, looked up by name.
//!
//! A color map is a list of color samples evenly spaced over [0, 1]; the
//! sample type `C` is chosen by the renderer (for instance an RGB vector).

use vstd::prelude::*;

use crate::text::str_equal;

verus! {

/// A color map for mapping scalar values to colors.
pub struct ColorMap<C> {
    /// Color map name.
    pub name: String,
    /// Color samples (evenly spaced from 0 to 1).
    pub colors: Vec<C>,
}

impl<C> ColorMap<C> {
    /// Creates a new color map.
    pub fn new(name: &str, colors: Vec<C>) -> (r: Self)
        ensures
            r.name@ == name@,
            r.colors@ == colors@,
    {
        ColorMap { name: name.to_owned(), colors }
    }
}

/// Registry for managing color maps by name.
pub struct ColorMapRegistry<C> {
    color_maps: Vec<ColorMap<C>>,
    by_name: Ghost<Map<Seq<char>, Seq<C>>>,
}

impl<C> ColorMapRegistry<C> {
    /// The registered color maps: name to color samples.
    pub closed spec fn map_view(&self) -> Map<Seq<char>, Seq<C>> {
        self.by_name@
    }

    /// Internal consistency of the registry.
    pub closed spec fn wf(&self) -> bool {
        &&& forall|i: int|
            #![trigger self.color_maps@[i]]
            0 <= i < self.color_maps@.len() ==> self.by_name@.contains_key(
                self.color_maps@[i].name@,
            ) && self.by_name@[self.color_maps@[i].name@] == self.color_maps@[i].colors@
        &&& forall|n: Seq<char>| #[trigger]
            self.by_name@.contains_key(n) ==> exists|i: int|
                0 <= i < self.color_maps@.len() && self.color_maps@[i].name@ == n
        &&& forall|i: int, j: int|
            0 <= i < j < self.color_maps@.len() ==> self.color_maps@[i].name@
                != self.color_maps@[j].name@
    }

    /// Creates an empty registry.
    pub fn empty() -> (r: Self)
        ensures
            r.wf(),
            r.map_view() == Map::<Seq<char>, Seq<C>>::empty(),
    {
        ColorMapRegistry { color_maps: Vec::new(), by_name: Ghost(Map::empty()) }
    }

    /// Position of the color map with a given name, if registered.
    fn find(&self, name: &str) -> (r: Option<usize>)
        requires
            self.wf(),
        ensures
            match r {
                Some(i) => i < self.color_maps@.len() && self.color_maps@[i as int].name@ == name@,
                None => !self.map_view().contains_key(name@),
            },
    {
        let mut i: usize = 0;
        while i < self.color_maps.len()
            invariant
                self.wf(),
                i <= self.color_maps@.len(),
                forall|j: int| 0 <= j < i ==> self.color_maps@[j].name@ != name@,
            decreases self.color_maps@.len() - i,
        {
            if str_equal(self.color_maps[i].name.as_str(), name) {
                return Some(i);
            }
            i = i + 1;
        }
        None
    }

    /// Registers a color map under its name, replacing any map of the same name.
    pub fn register(&mut self, color_map: ColorMap<C>)
        requires
            old(self).wf(),
        ensures
            final(self).wf(),
            final(self).map_view() == old(self).map_view().insert(
                color_map.name@,
                color_map.colors@,
            ),
    {
        let ghost old_map = self.by_name@;
        let ghost old_maps = self.color_maps@;
        let ghost k = color_map.name@;
        let ghost v = color_map.colors@;
        match self.find(color_map.name.as_str()) {
            Some(i) => {
                self.color_maps.set(i, color_map);
                self.by_name = Ghost(old_map.insert(k, v));
                proof {
                    let m = self.by_name@;
                    let ms = self.color_maps@;
                    assert forall|j: int|
                        #![trigger ms[j]]
                        0 <= j < ms.len() implies m.contains_key(ms[j].name@) && m[ms[j].name@]
                            == ms[j].colors@ by {
                        if j != i {
                            assert(ms[j] == old_maps[j]);
                        }
                    }
                    assert forall|n: Seq<char>| #[trigger] m.contains_key(n) implies exists|j: int|
                        0 <= j < ms.len() && ms[j].name@ == n by {
                        if n == k {
                            assert(ms[i as int].name@ == n);
                        } else {
                            let j = choose|j: int| 0 <= j < old_maps.len() && old_maps[j].name@ == n;
                            assert(ms[j] == old_maps[j]);
                        }
                    }
                    assert forall|a: int, b: int|
                        0 <= a < b < ms.len() implies ms[a].name@ != ms[b].name@ by {
                        if a != i {
                            assert(ms[a] == old_maps[a]);
                        }
                        if b != i {
                            assert(ms[b] == old_maps[b]);
                        }
                    }
                }
            },
            None => {
                self.color_maps.push(color_map);
                self.by_name = Ghost(old_map.insert(k, v));
                proof {
                    let m = self.by_name@;
                    let ms = self.color_maps@;
                    let n = ms.len() - 1;
                    assert forall|j: int| 0 <= j < n implies ms[j] == old_maps[j] by {}
                    assert forall|j: int|
                        #![trigger ms[j]]
                        0 <= j < ms.len() implies m.contains_key(ms[j].name@) && m[ms[j].name@]
                            == ms[j].colors@ by {
                        if j < n {
                            assert(old_map.contains_key(old_maps[j].name@));
                        }
                    }
                    assert forall|nm: Seq<char>| #[trigger] m.contains_key(nm) implies exists|j: int|
                        0 <= j < ms.len() && ms[j].name@ == nm by {
                        if nm == k {
                            assert(ms[n as int].name@ == nm);
                        } else {
                            assert(old_map.contains_key(nm));
                            let j = choose|j: int| 0 <= j < old_maps.len() && old_maps[j].name@ == nm;
                            assert(ms[j].name@ == nm);
                        }
                    }
                    assert forall|a: int, b: int|
                        0 <= a < b < ms.len() implies ms[a].name@ != ms[b].name@ by {
                        if b == n {
                            assert(old_map.contains_key(old_maps[a].name@));
                        }
                    }
                }
            },
        }
    }

    /// Gets a color map by name.
    pub fn get(&self, name: &str) -> (r: Option<&ColorMap<C>>)
        requires
            self.wf(),
        ensures
            match r {
                Some(cm) => self.map_view().contains_key(name@) && cm.name@ == name@
                    && cm.colors@ == self.map_view()[name@],
                None => !self.map_view().contains_key(name@),
            },
    {
        match self.find(name) {
            Some(i) => Some(&self.color_maps[i]),
            None => None,
        }
    }

    /// Returns all color map names, each once, in no particular order.
    pub fn names(&self) -> (r: Vec<&str>)
        requires
            self.wf(),
        ensures
            forall|n: Seq<char>|
                crate::materials::str_views(r@).contains(n) <==> self.map_view().contains_key(n),
            crate::materials::no_duplicates(crate::materials::str_views(r@)),
    {
        let mut out: Vec<&str> = Vec::new();
        let mut i: usize = 0;
        while i < self.color_maps.len()
            invariant
                self.wf(),
                i <= self.color_maps@.len(),
                out@.len() == i,
                forall|j: int| 0 <= j < i ==> #[trigger] out@[j]@ == self.color_maps@[j].name@,
            decreases self.color_maps@.len() - i,
        {
            out.push(self.color_maps[i].name.as_str());
            i = i + 1;
        }
        proof {
            let v = crate::materials::str_views(out@);
            assert forall|n: Seq<char>| v.contains(n) <==> self.by_name@.contains_key(n) by {
                if v.contains(n) {
                    let k = choose|k: int| 0 <= k < v.len() && v[k] == n;
                    assert(out@[k]@ == self.color_maps@[k].name@);
                }
                if self.by_name@.contains_key(n) {
                    let k = choose|k: int|
                        0 <= k < self.color_maps@.len() && self.color_maps@[k].name@ == n;
                    assert(v[k] == out@[k]@);
                }
            }
            assert forall|a: int, b: int| 0 <= a < b < v.len() implies v[a] != v[b] by {
                assert(v[a] == out@[a]@ && v[b] == out@[b]@);
            }
        }
        out
    }
}

} // verus!
