//! Material registry: named materials, a default material, and the listing
//! order of material names.
//!
//! Materials control how surfaces are shaded. Blendable materials (clay, wax,
//! candy, flat) use 4-channel matcap textures for color-tinted lighting;
//! static materials (mud, ceramic, jade, normal) use a single matcap texture.
//! The numeric lighting factors of a material live with the renderer; the
//! registry keeps what it decides on: names and the flat/blendable flags.

use vstd::prelude::*;

use crate::text::{chars_less, str_equal, str_less, lemma_chars_less_total, lemma_chars_less_transitive, lemma_chars_less_irreflexive};

verus! {

/// A material definition: its name and its kind.
#[derive(Debug, Clone)]
pub struct Material {
    /// Material name.
    pub name: String,
    /// Whether this is a flat (unlit) material.
    pub is_flat: bool,
    /// Whether this material has separate R/G/B/K matcap channels (blendable).
    pub is_blendable: bool,
}

impl Material {
    /// Creates a new material with default properties (not blendable, not flat).
    pub fn new(name: &str) -> (m: Self)
        ensures
            m.name@ == name@,
            !m.is_flat,
            !m.is_blendable,
    {
        Material { name: name.to_owned(), is_flat: false, is_blendable: false }
    }

    /// Creates a new blendable material.
    pub fn blendable(name: &str) -> (m: Self)
        ensures
            m.name@ == name@,
            !m.is_flat,
            m.is_blendable,
    {
        Material { name: name.to_owned(), is_flat: false, is_blendable: true }
    }

    /// Creates a new static (non-blendable) material.
    pub fn static_mat(name: &str) -> (m: Self)
        ensures
            m.name@ == name@,
            !m.is_flat,
            !m.is_blendable,
    {
        Material { name: name.to_owned(), is_flat: false, is_blendable: false }
    }

    /// Creates a flat (unlit) material. Flat is blendable but the shader skips the matcap.
    pub fn flat(name: &str) -> (m: Self)
        ensures
            m.name@ == name@,
            m.is_flat,
            m.is_blendable,
    {
        Material { name: name.to_owned(), is_flat: true, is_blendable: true }
    }

    /// The "clay" material - matte, minimal specularity. Blendable.
    pub fn clay() -> (m: Self)
        ensures
            m.name@ == "clay"@,
            !m.is_flat,
            m.is_blendable,
    {
        Self::blendable("clay")
    }

    /// The "wax" material - slightly glossy, soft highlights. Blendable.
    pub fn wax() -> (m: Self)
        ensures
            m.name@ == "wax"@,
            !m.is_flat,
            m.is_blendable,
    {
        Self::blendable("wax")
    }

    /// The "candy" material - shiny, bright highlights. Blendable.
    pub fn candy() -> (m: Self)
        ensures
            m.name@ == "candy"@,
            !m.is_flat,
            m.is_blendable,
    {
        Self::blendable("candy")
    }

    /// The "ceramic" material - smooth, moderate gloss. Static.
    pub fn ceramic() -> (m: Self)
        ensures
            m.name@ == "ceramic"@,
            !m.is_flat,
            !m.is_blendable,
    {
        Self::static_mat("ceramic")
    }

    /// The "jade" material - translucent appearance (simulated). Static.
    pub fn jade() -> (m: Self)
        ensures
            m.name@ == "jade"@,
            !m.is_flat,
            !m.is_blendable,
    {
        Self::static_mat("jade")
    }

    /// The "mud" material - very matte, no specularity. Static.
    pub fn mud() -> (m: Self)
        ensures
            m.name@ == "mud"@,
            !m.is_flat,
            !m.is_blendable,
    {
        Self::static_mat("mud")
    }

    /// The "normal" material - balanced properties. Static.
    pub fn normal() -> (m: Self)
        ensures
            m.name@ == "normal"@,
            !m.is_flat,
            !m.is_blendable,
    {
        Self::static_mat("normal")
    }
}

impl Default for Material {
    fn default() -> (m: Self)
        ensures
            m.name@ == "clay"@,
            !m.is_flat,
            m.is_blendable,
    {
        Self::clay()
    }
}

/// The built-in material names in their canonical listing order.
pub open spec fn builtin_material_names() -> Seq<Seq<char>> {
    seq!["clay"@, "wax"@, "candy"@, "flat"@, "mud"@, "ceramic"@, "jade"@, "normal"@]
}

/// The built-in materials are listed as clay, wax, candy, flat, mud,
/// ceramic, jade, normal: the blendable ones first, then the static ones.
pub proof fn lemma_builtin_material_order()
    ensures
        builtin_material_names() == seq![seq!['c', 'l', 'a', 'y'], seq!['w', 'a', 'x'], seq!['c', 'a', 'n', 'd', 'y'], seq!['f', 'l', 'a', 't'], seq!['m', 'u', 'd'], seq!['c', 'e', 'r', 'a', 'm', 'i', 'c'], seq!['j', 'a', 'd', 'e'], seq!['n', 'o', 'r', 'm', 'a', 'l']],
{
    reveal_strlit("clay");
    reveal_strlit("wax");
    reveal_strlit("candy");
    reveal_strlit("flat");
    reveal_strlit("mud");
    reveal_strlit("ceramic");
    reveal_strlit("jade");
    reveal_strlit("normal");
    assert(seq!['c', 'l', 'a', 'y'] =~= "clay"@);
    assert(seq!['w', 'a', 'x'] =~= "wax"@);
    assert(seq!['c', 'a', 'n', 'd', 'y'] =~= "candy"@);
    assert(seq!['f', 'l', 'a', 't'] =~= "flat"@);
    assert(seq!['m', 'u', 'd'] =~= "mud"@);
    assert(seq!['c', 'e', 'r', 'a', 'm', 'i', 'c'] =~= "ceramic"@);
    assert(seq!['j', 'a', 'd', 'e'] =~= "jade"@);
    assert(seq!['n', 'o', 'r', 'm', 'a', 'l'] =~= "normal"@);
    assert(builtin_material_names() =~= seq![seq!['c', 'l', 'a', 'y'], seq!['w', 'a', 'x'], seq!['c', 'a', 'n', 'd', 'y'], seq!['f', 'l', 'a', 't'], seq!['m', 'u', 'd'], seq!['c', 'e', 'r', 'a', 'm', 'i', 'c'], seq!['j', 'a', 'd', 'e'], seq!['n', 'o', 'r', 'm', 'a', 'l']]);
}

/// Whether a name is one of the built-in material names.
pub open spec fn is_builtin_material(n: Seq<char>) -> bool {
    builtin_material_names().contains(n)
}

/// The entries of `list` that satisfy `keep`, in order.
pub open spec fn names_kept(list: Seq<Seq<char>>, keep: Set<Seq<char>>) -> Seq<Seq<char>>
    decreases list.len(),
{
    if list.len() == 0 {
        Seq::empty()
    } else {
        let rest = names_kept(list.drop_last(), keep);
        if keep.contains(list.last()) {
            rest.push(list.last())
        } else {
            rest
        }
    }
}

/// A sequence of names in strictly increasing lexicographic order.
pub open spec fn strictly_sorted(s: Seq<Seq<char>>) -> bool {
    forall|i: int, j: int| 0 <= i < j < s.len() ==> chars_less(s[i], s[j])
}

/// The listing order of material names: the built-ins that are registered,
/// in canonical order, then the other names in increasing order.
pub open spec fn material_listing(names: Set<Seq<char>>, listed: Seq<Seq<char>>) -> bool {
    let head = names_kept(builtin_material_names(), names);
    let tail = listed.skip(head.len() as int);
    &&& head.len() <= listed.len()
    &&& listed.take(head.len() as int) == head
    &&& strictly_sorted(tail)
    &&& forall|n: Seq<char>| #[trigger] tail.contains(n) <==> names.contains(n) && !is_builtin_material(n)
}

/// The views of a vector of string slices.
pub open spec fn str_views(v: Seq<&str>) -> Seq<Seq<char>> {
    v.map_values(|s: &str| s@)
}

/// Registry for managing materials by name.
pub struct MaterialRegistry {
    materials: Vec<Material>,
    default_material: String,
    by_name: Ghost<Map<Seq<char>, Material>>,
}

impl MaterialRegistry {
    /// The registered materials, by name.
    pub closed spec fn material_map(&self) -> Map<Seq<char>, Material> {
        self.by_name@
    }

    /// The name of the default material.
    pub closed spec fn default_name(&self) -> Seq<char> {
        self.default_material@
    }

    /// Internal consistency of the registry.
    pub closed spec fn wf(&self) -> bool {
        &&& self.by_name@.dom().finite()
        &&& self.by_name@.dom().len() == self.materials@.len()
        &&& forall|i: int|
            #![trigger self.materials@[i]]
            0 <= i < self.materials@.len() ==> self.by_name@.contains_key(
                self.materials@[i].name@,
            ) && self.by_name@[self.materials@[i].name@] == self.materials@[i]
        &&& forall|n: Seq<char>| #[trigger]
            self.by_name@.contains_key(n) ==> exists|i: int|
                0 <= i < self.materials@.len() && self.materials@[i].name@ == n
        &&& forall|i: int, j: int|
            0 <= i < j < self.materials@.len() ==> self.materials@[i].name@
                != self.materials@[j].name@
    }

    /// Every registered material is stored under its own name.
    pub proof fn lemma_keyed_by_name(&self, n: Seq<char>)
        requires
            self.wf(),
            self.material_map().contains_key(n),
        ensures
            self.material_map()[n].name@ == n,
            self.material_map().dom().finite(),
    {
        let i = choose|i: int| 0 <= i < self.materials@.len() && self.materials@[i].name@ == n;
        assert(self.by_name@.contains_key(self.materials@[i].name@));
    }

    /// Creates an empty registry whose default name is empty.
    pub fn empty() -> (r: Self)
        ensures
            r.wf(),
            r.material_map() == Map::<Seq<char>, Material>::empty(),
            r.default_name() == Seq::<char>::empty(),
    {
        MaterialRegistry { materials: Vec::new(), default_material: String::new(), by_name: Ghost(Map::empty()) }
    }

    /// Creates a new material registry with the eight built-in materials and
    /// "clay" as default.
    pub fn new() -> (r: Self)
        ensures
            r.wf(),
            r.material_map().dom() == builtin_material_names().to_set(),
            r.default_name() == "clay"@,
            forall|n: Seq<char>| #[trigger]
                r.material_map().contains_key(n) ==> r.material_map()[n].is_blendable == (n
                    == "clay"@ || n == "wax"@ || n == "candy"@ || n == "flat"@)
                    && r.material_map()[n].is_flat == (n == "flat"@),
    {
        let mut registry = Self::empty();
        registry.default_material = "clay".to_owned();
        registry.register(Material::clay());
        registry.register(Material::wax());
        registry.register(Material::candy());
        registry.register(Material::ceramic());
        registry.register(Material::jade());
        registry.register(Material::mud());
        registry.register(Material::normal());
        registry.register(Material::flat("flat"));
        proof {
            reveal_strlit("clay");
            reveal_strlit("wax");
            reveal_strlit("candy");
            reveal_strlit("ceramic");
            reveal_strlit("jade");
            reveal_strlit("mud");
            reveal_strlit("normal");
            reveal_strlit("flat");
            assert("clay"@[0] == 'c' && "clay"@[1] == 'l' && "candy"@[0] == 'c' && "candy"@[1]
                == 'a' && "ceramic"@[0] == 'c' && "ceramic"@[1] == 'e');
            assert("wax"@[0] == 'w' && "flat"@[0] == 'f' && "mud"@[0] == 'm' && "jade"@[0] == 'j'
                && "normal"@[0] == 'n');
            assert(registry.material_map().dom() =~= builtin_material_names().to_set());
        }
        registry
    }

    /// Position of the material with a given name, if registered.
    fn find(&self, name: &str) -> (r: Option<usize>)
        requires
            self.wf(),
        ensures
            match r {
                Some(i) => i < self.materials@.len() && self.materials@[i as int].name@ == name@,
                None => !self.material_map().contains_key(name@),
            },
    {
        let mut i: usize = 0;
        while i < self.materials.len()
            invariant
                self.wf(),
                i <= self.materials@.len(),
                forall|j: int| 0 <= j < i ==> self.materials@[j].name@ != name@,
            decreases self.materials@.len() - i,
        {
            if str_equal(self.materials[i].name.as_str(), name) {
                return Some(i);
            }
            i = i + 1;
        }
        None
    }

    /// Registers a material under its name, replacing any material of the same name.
    pub fn register(&mut self, material: Material)
        requires
            old(self).wf(),
        ensures
            final(self).wf(),
            final(self).material_map() == old(self).material_map().insert(material.name@, material),
            final(self).default_name() == old(self).default_name(),
    {
        let ghost old_map = self.by_name@;
        let ghost old_mats = self.materials@;
        let ghost k = material.name@;
        match self.find(material.name.as_str()) {
            Some(i) => {
                self.materials.set(i, material);
                self.by_name = Ghost(old_map.insert(k, material));
                proof {
                    let m = self.by_name@;
                    let ms = self.materials@;
                    assert(old_map.contains_key(k));
                    assert(m.dom() =~= old_map.dom());
                    assert forall|j: int|
                        #![trigger ms[j]]
                        0 <= j < ms.len() implies m.contains_key(ms[j].name@) && m[ms[j].name@]
                            == ms[j] by {
                        if j != i {
                            assert(ms[j] == old_mats[j]);
                        }
                    }
                    assert forall|n: Seq<char>| #[trigger] m.contains_key(n) implies exists|j: int|
                        0 <= j < ms.len() && ms[j].name@ == n by {
                        let j = choose|j: int| 0 <= j < old_mats.len() && old_mats[j].name@ == n;
                        if j == i {
                            assert(ms[j].name@ == n);
                        } else {
                            assert(ms[j] == old_mats[j]);
                        }
                    }
                    assert forall|a: int, b: int|
                        0 <= a < b < ms.len() implies ms[a].name@ != ms[b].name@ by {
                        if a != i {
                            assert(ms[a] == old_mats[a]);
                        }
                        if b != i {
                            assert(ms[b] == old_mats[b]);
                        }
                    }
                }
            },
            None => {
                self.materials.push(material);
                self.by_name = Ghost(old_map.insert(k, material));
                proof {
                    let m = self.by_name@;
                    let ms = self.materials@;
                    let n = ms.len() - 1;
                    assert(ms[n as int] == material);
                    assert forall|j: int| 0 <= j < n implies ms[j] == old_mats[j] by {}
                    assert forall|j: int|
                        #![trigger ms[j]]
                        0 <= j < ms.len() implies m.contains_key(ms[j].name@) && m[ms[j].name@]
                            == ms[j] by {
                        if j < n {
                            assert(old_map.contains_key(old_mats[j].name@));
                        }
                    }
                    assert forall|nm: Seq<char>| #[trigger] m.contains_key(nm) implies exists|j: int|
                        0 <= j < ms.len() && ms[j].name@ == nm by {
                        if nm == k {
                            assert(ms[n as int].name@ == nm);
                        } else {
                            assert(old_map.contains_key(nm));
                            let j = choose|j: int|
                                0 <= j < old_mats.len() && old_mats[j].name@ == nm;
                            assert(ms[j].name@ == nm);
                        }
                    }
                    assert forall|a: int, b: int|
                        0 <= a < b < ms.len() implies ms[a].name@ != ms[b].name@ by {
                        if b == n {
                            assert(old_map.contains_key(old_mats[a].name@));
                        }
                    }
                }
            },
        }
    }

    /// Gets a material by name.
    pub fn get(&self, name: &str) -> (r: Option<&Material>)
        requires
            self.wf(),
        ensures
            match r {
                Some(m) => self.material_map().contains_key(name@) && *m == self.material_map()[name@],
                None => !self.material_map().contains_key(name@),
            },
    {
        match self.find(name) {
            Some(i) => Some(&self.materials[i]),
            None => None,
        }
    }

    /// Returns true if a material with the given name is registered.
    pub fn has(&self, name: &str) -> (r: bool)
        requires
            self.wf(),
        ensures
            r == self.material_map().contains_key(name@),
    {
        match self.find(name) {
            Some(_) => true,
            None => false,
        }
    }

    /// Gets the default material. When no material of the default name is
    /// registered, some registered material is returned instead.
    pub fn default_material(&self) -> (r: &Material)
        requires
            self.wf(),
            !self.material_map().is_empty(),
        ensures
            self.material_map().contains_key(r.name@),
            self.material_map()[r.name@] == *r,
            self.material_map().contains_key(self.default_name()) ==> r.name@
                == self.default_name(),
    {
        match self.find(self.default_material.as_str()) {
            Some(i) => &self.materials[i],
            None => {
                proof {
                    let n = choose|n: Seq<char>| self.by_name@.contains_key(n);
                    assert(self.by_name@.dom().contains(n));
                    let j = choose|j: int|
                        0 <= j < self.materials@.len() && self.materials@[j].name@ == n;
                    assert(self.materials@.len() > 0);
                }
                &self.materials[0]
            },
        }
    }

    /// Sets the default material name; names that are not registered are ignored.
    pub fn set_default(&mut self, name: &str)
        requires
            old(self).wf(),
        ensures
            final(self).wf(),
            final(self).material_map() == old(self).material_map(),
            final(self).default_name() == (if old(self).material_map().contains_key(name@) {
                name@
            } else {
                old(self).default_name()
            }),
    {
        if self.has(name) {
            self.default_material = name.to_owned();
        }
    }

    /// Returns the number of registered materials.
    pub fn len(&self) -> (r: usize)
        requires
            self.wf(),
        ensures
            r == self.material_map().dom().len(),
    {
        self.materials.len()
    }

    /// Returns true if no materials are registered.
    pub fn is_empty(&self) -> (r: bool)
        requires
            self.wf(),
        ensures
            r == (self.material_map().dom().len() == 0),
    {
        self.materials.len() == 0
    }
}

/// The built-in material names, in canonical order.
fn builtin_names() -> (r: Vec<&'static str>)
    ensures
        str_views(r@) == builtin_material_names(),
{
    let mut v: Vec<&'static str> = Vec::new();
    v.push("clay");
    v.push("wax");
    v.push("candy");
    v.push("flat");
    v.push("mud");
    v.push("ceramic");
    v.push("jade");
    v.push("normal");
    proof {
        assert(str_views(v@) =~= builtin_material_names());
    }
    v
}

/// Whether a name is one of the built-in material names.
fn is_builtin_name(name: &str) -> (r: bool)
    ensures
        r == is_builtin_material(name@),
{
    let builtins = builtin_names();
    let mut i: usize = 0;
    while i < builtins.len()
        invariant
            str_views(builtins@) == builtin_material_names(),
            i <= builtins@.len(),
            forall|j: int| 0 <= j < i ==> builtin_material_names()[j] != name@,
        decreases builtins@.len() - i,
    {
        if str_equal(builtins[i], name) {
            proof {
                assert(builtin_material_names()[i as int] == name@);
            }
            return true;
        }
        i = i + 1;
    }
    false
}

/// Inserts `s` into a strictly sorted vector of names, keeping it strictly sorted.
fn insert_sorted<'a>(v: &mut Vec<&'a str>, s: &'a str)
    requires
        strictly_sorted(str_views(old(v)@)),
        !str_views(old(v)@).contains(s@),
    ensures
        strictly_sorted(str_views(final(v)@)),
        forall|x: Seq<char>|
            str_views(final(v)@).contains(x) <==> (str_views(old(v)@).contains(x) || x == s@),
{
    let ghost ov = str_views(v@);
    let mut p: usize = 0;
    while p < v.len() && !str_less(s, v[p])
        invariant
            ov == str_views(v@),
            p <= v@.len(),
            forall|j: int| 0 <= j < p ==> !chars_less(s@, ov[j]),
        decreases v@.len() - p,
    {
        p = p + 1;
    }
    v.insert(p, s);
    proof {
        let nv = str_views(v@);
        assert(nv =~= ov.insert(p as int, s@));
        assert forall|j: int| 0 <= j < p implies chars_less(ov[j], s@) by {
            assert(ov.contains(ov[j]));
            lemma_chars_less_total(ov[j], s@);
        }
        assert forall|i: int, j: int| 0 <= i < j < nv.len() implies chars_less(nv[i], nv[j]) by {
            if j < p {
            } else if j == p {
            } else if i == p {
                assert(chars_less(s@, ov[p as int]));
                if j - 1 > p {
                    lemma_chars_less_transitive(s@, ov[p as int], ov[j - 1]);
                }
            } else if i < p {
                assert(chars_less(ov[i], s@));
                assert(chars_less(s@, ov[p as int]));
                lemma_chars_less_transitive(ov[i], s@, ov[p as int]);
                if j - 1 > p {
                    lemma_chars_less_transitive(ov[i], ov[p as int], ov[j - 1]);
                }
            } else {
                assert(nv[i] == ov[i - 1] && nv[j] == ov[j - 1]);
            }
        }
        assert forall|x: Seq<char>| nv.contains(x) <==> (ov.contains(x) || x == s@) by {
            if nv.contains(x) {
                let k = choose|k: int| 0 <= k < nv.len() && nv[k] == x;
                if k < p {
                    assert(ov[k] == x);
                } else if k > p {
                    assert(ov[k - 1] == x);
                }
            }
            if ov.contains(x) {
                let k = choose|k: int| 0 <= k < ov.len() && ov[k] == x;
                if k < p {
                    assert(nv[k] == x);
                } else {
                    assert(nv[k + 1] == x);
                }
            }
            if x == s@ {
                assert(nv[p as int] == x);
            }
        }
    }
}

impl MaterialRegistry {
    /// Returns all material names, with built-in materials first in a stable
    /// order (clay, wax, candy, flat, mud, ceramic, jade, normal), followed by
    /// custom materials sorted alphabetically.
    pub fn names(&self) -> (r: Vec<&str>)
        requires
            self.wf(),
        ensures
            material_listing(self.material_map().dom(), str_views(r@)),
    {
        let ghost dom = self.by_name@.dom();
        let builtins = builtin_names();
        let mut names: Vec<&str> = Vec::new();
        let mut i: usize = 0;
        while i < builtins.len()
            invariant
                self.wf(),
                dom == self.by_name@.dom(),
                str_views(builtins@) == builtin_material_names(),
                i <= builtins@.len(),
                str_views(names@) == names_kept(builtin_material_names().take(i as int), dom),
            decreases builtins@.len() - i,
        {
            let ghost before = str_views(names@);
            let b = builtins[i];
            proof {
                assert(builtin_material_names().take(i + 1).drop_last() =~= builtin_material_names().take(i as int));
                assert(builtin_material_names().take(i + 1).last() == b@);
            }
            if self.has(b) {
                names.push(b);
                proof {
                    assert(str_views(names@) =~= before.push(b@));
                }
            }
            i = i + 1;
        }
        proof {
            assert(builtin_material_names().take(8) =~= builtin_material_names());
        }
        let ghost head = str_views(names@);
        let mut custom: Vec<&str> = Vec::new();
        let mut j: usize = 0;
        while j < self.materials.len()
            invariant
                self.wf(),
                j <= self.materials@.len(),
                strictly_sorted(str_views(custom@)),
                forall|x: Seq<char>|
                    #[trigger] str_views(custom@).contains(x) <==> (exists|k: int|
                        0 <= k < j && self.materials@[k].name@ == x) && !is_builtin_material(x),
            decreases self.materials@.len() - j,
        {
            let n = self.materials[j].name.as_str();
            let ghost before = str_views(custom@);
            let ghost old_custom = custom;
            if !is_builtin_name(n) {
                proof {
                    if before.contains(n@) {
                        let k = choose|k: int| 0 <= k < j && self.materials@[k].name@ == n@;
                        assert(self.materials@[k].name@ != self.materials@[j as int].name@);
                    }
                }
                insert_sorted(&mut custom, n);
            }
            proof {
                let now = str_views(custom@);
                assert forall|x: Seq<char>|
                    now.contains(x) <==> (exists|k: int|
                        0 <= k < j + 1 && self.materials@[k].name@ == x) && !is_builtin_material(x)
                    by {
                    if exists|k: int| 0 <= k < j + 1 && self.materials@[k].name@ == x {
                        let k = choose|k: int| 0 <= k < j + 1 && self.materials@[k].name@ == x;
                        if k < j {
                            assert(self.materials@[k].name@ == x);
                        } else {
                            assert(x == n@);
                        }
                    }
                    if before.contains(x) {
                        assert(str_views(old_custom@).contains(x));
                        let k = choose|k: int| 0 <= k < j && self.materials@[k].name@ == x;
                        assert(self.materials@[k].name@ == x);
                    }
                    if now.contains(x) && !before.contains(x) {
                        assert(x == n@);
                        assert(self.materials@[j as int].name@ == x);
                    }
                }
            }
            j = j + 1;
        }
        let ghost tail = str_views(custom@);
        proof {
            assert forall|x: Seq<char>|
                tail.contains(x) <==> dom.contains(x) && !is_builtin_material(x) by {
                if dom.contains(x) {
                    assert(self.by_name@.contains_key(x));
                    let k = choose|k: int|
                        0 <= k < self.materials@.len() && self.materials@[k].name@ == x;
                    assert(self.materials@[k].name@ == x);
                }
                if tail.contains(x) {
                    assert(str_views(custom@).contains(x));
                    let k = choose|k: int| 0 <= k < j && self.materials@[k].name@ == x;
                    assert(self.by_name@.contains_key(self.materials@[k].name@));
                }
            }
        }
        let mut t: usize = 0;
        while t < custom.len()
            invariant
                t <= custom@.len(),
                tail == str_views(custom@),
                str_views(names@) == head + tail.take(t as int),
            decreases custom@.len() - t,
        {
            let ghost before = str_views(names@);
            names.push(custom[t]);
            proof {
                assert(tail.take(t + 1) =~= tail.take(t as int).push(tail[t as int]));
                assert(str_views(names@) =~= before.push(tail[t as int]));
            }
            t = t + 1;
        }
        proof {
            let all = str_views(names@);
            assert(tail.take(tail.len() as int) =~= tail);
            assert(all.take(head.len() as int) =~= head);
            assert(all.skip(head.len() as int) =~= tail);
        }
        names
    }
}

impl Default for MaterialRegistry {
    fn default() -> (r: Self)
        ensures
            r.wf(),
            r.material_map() == Map::<Seq<char>, Material>::empty(),
            r.default_name() == Seq::<char>::empty(),
    {
        Self::empty()
    }
}


/// Which names `names_kept` keeps: exactly those of the list that are in the set.
pub proof fn lemma_names_kept_contains(list: Seq<Seq<char>>, keep: Set<Seq<char>>, x: Seq<char>)
    ensures
        names_kept(list, keep).contains(x) <==> list.contains(x) && keep.contains(x),
        names_kept(list, keep).len() <= list.len(),
    decreases list.len(),
{
    if list.len() > 0 {
        let rest = list.drop_last();
        lemma_names_kept_contains(rest, keep, x);
        assert(list =~= rest.push(list.last()));
        if list.contains(x) && x != list.last() {
            let k = choose|k: int| 0 <= k < list.len() && list[k] == x;
            assert(rest[k] == x);
        }
        if rest.contains(x) {
            let k = choose|k: int| 0 <= k < rest.len() && rest[k] == x;
            assert(list[k] == x);
        }
        let kept = names_kept(list, keep);
        if keep.contains(list.last()) {
            assert(kept == names_kept(rest, keep).push(list.last()));
            if kept.contains(x) && x != list.last() {
                let k = choose|k: int| 0 <= k < kept.len() && kept[k] == x;
                assert(names_kept(rest, keep)[k] == x);
            }
            if names_kept(rest, keep).contains(x) {
                let k = choose|k: int|
                    0 <= k < names_kept(rest, keep).len() && names_kept(rest, keep)[k] == x;
                assert(kept[k] == x);
            }
            if x == list.last() {
                assert(kept[kept.len() - 1] == x);
            }
        }
    }
}

/// Whether no name occurs twice.
pub open spec fn no_duplicates(s: Seq<Seq<char>>) -> bool {
    forall|i: int, j: int| 0 <= i < j < s.len() ==> s[i] != s[j]
}

/// `names_kept` of a list without duplicates has no duplicates.
pub proof fn lemma_names_kept_distinct(list: Seq<Seq<char>>, keep: Set<Seq<char>>)
    requires
        no_duplicates(list),
    ensures
        no_duplicates(names_kept(list, keep)),
    decreases list.len(),
{
    if list.len() > 0 {
        let rest = list.drop_last();
        assert(no_duplicates(rest)) by {
            assert forall|i: int, j: int| 0 <= i < j < rest.len() implies rest[i] != rest[j] by {
                assert(rest[i] == list[i] && rest[j] == list[j]);
            }
        }
        lemma_names_kept_distinct(rest, keep);
        if keep.contains(list.last()) {
            let kr = names_kept(rest, keep);
            let kept = kr.push(list.last());
            lemma_names_kept_contains(rest, keep, list.last());
            if rest.contains(list.last()) {
                let k = choose|k: int| 0 <= k < rest.len() && rest[k] == list.last();
                assert(list[k] == list[list.len() - 1]);
            }
            assert forall|i: int, j: int| 0 <= i < j < kept.len() implies kept[i] != kept[j] by {
                if j == kept.len() - 1 {
                    assert(kr.contains(kr[i]));
                }
            }
        }
    }
}

/// A strictly sorted sequence has no duplicates.
pub proof fn lemma_sorted_distinct(s: Seq<Seq<char>>)
    requires
        strictly_sorted(s),
    ensures
        no_duplicates(s),
{
    assert forall|i: int, j: int| 0 <= i < j < s.len() implies s[i] != s[j] by {
        lemma_chars_less_irreflexive(s[i]);
    }
}

/// Two strictly sorted sequences with the same elements are equal.
pub proof fn lemma_sorted_unique(a: Seq<Seq<char>>, b: Seq<Seq<char>>)
    requires
        strictly_sorted(a),
        strictly_sorted(b),
        forall|x: Seq<char>| a.contains(x) <==> b.contains(x),
    ensures
        a == b,
    decreases a.len(),
{
    if a.len() == 0 {
        if b.len() > 0 {
            assert(b.contains(b[0]));
        }
        assert(a =~= b);
    } else {
        assert(a.contains(a[0]));
        assert(b.len() > 0);
        assert(b.contains(b[0]));
        let ka = choose|k: int| 0 <= k < b.len() && b[k] == a[0];
        let kb = choose|k: int| 0 <= k < a.len() && a[k] == b[0];
        if ka > 0 {
            assert(chars_less(b[0], a[0]));
            if kb > 0 {
                assert(chars_less(a[0], b[0]));
                lemma_chars_less_total(a[0], b[0]);
            } else {
                lemma_chars_less_irreflexive(a[0]);
            }
        }
        assert(a[0] == b[0]);
        let ra = a.drop_first();
        let rb = b.drop_first();
        assert forall|x: Seq<char>| ra.contains(x) <==> rb.contains(x) by {
            if ra.contains(x) {
                let k = choose|k: int| 0 <= k < ra.len() && ra[k] == x;
                assert(a[k + 1] == x);
                assert(a.contains(x));
                assert(chars_less(a[0], x));
                lemma_chars_less_irreflexive(x);
                let m = choose|m: int| 0 <= m < b.len() && b[m] == x;
                assert(m != 0);
                assert(rb[m - 1] == x);
            }
            if rb.contains(x) {
                let k = choose|k: int| 0 <= k < rb.len() && rb[k] == x;
                assert(b[k + 1] == x);
                assert(b.contains(x));
                assert(chars_less(b[0], x));
                lemma_chars_less_irreflexive(x);
                let m = choose|m: int| 0 <= m < a.len() && a[m] == x;
                assert(m != 0);
                assert(ra[m - 1] == x);
            }
        }
        assert(strictly_sorted(ra)) by {
            assert forall|i: int, j: int| 0 <= i < j < ra.len() implies chars_less(ra[i], ra[j]) by {
                assert(ra[i] == a[i + 1] && ra[j] == a[j + 1]);
            }
        }
        assert(strictly_sorted(rb)) by {
            assert forall|i: int, j: int| 0 <= i < j < rb.len() implies chars_less(rb[i], rb[j]) by {
                assert(rb[i] == b[i + 1] && rb[j] == b[j + 1]);
            }
        }
        lemma_sorted_unique(ra, rb);
        assert(a =~= seq![a[0]] + ra);
        assert(b =~= seq![b[0]] + rb);
    }
}

/// The material listing names every registered material exactly once and
/// nothing else, and it is the only sequence with the listing's order.
pub proof fn lemma_listing_complete_and_unique(
    names: Set<Seq<char>>,
    listed: Seq<Seq<char>>,
    other: Seq<Seq<char>>,
)
    requires
        material_listing(names, listed),
    ensures
        forall|n: Seq<char>| listed.contains(n) <==> names.contains(n),
        no_duplicates(listed),
        material_listing(names, other) ==> other == listed,
{
    let builtins = builtin_material_names();
    let head = names_kept(builtins, names);
    let tail = listed.skip(head.len() as int);
    reveal_strlit("clay");
    reveal_strlit("wax");
    reveal_strlit("candy");
    reveal_strlit("flat");
    reveal_strlit("mud");
    reveal_strlit("ceramic");
    reveal_strlit("jade");
    reveal_strlit("normal");
    assert("clay"@[0] == 'c' && "clay"@[1] == 'l' && "candy"@[0] == 'c' && "candy"@[1] == 'a'
        && "ceramic"@[0] == 'c' && "ceramic"@[1] == 'e');
    assert("wax"@[0] == 'w' && "flat"@[0] == 'f' && "mud"@[0] == 'm' && "jade"@[0] == 'j'
        && "normal"@[0] == 'n');
    assert(no_duplicates(builtins));
    lemma_names_kept_distinct(builtins, names);
    lemma_sorted_distinct(tail);
    assert(listed =~= head + tail);
    assert forall|n: Seq<char>| listed.contains(n) <==> names.contains(n) by {
        lemma_names_kept_contains(builtins, names, n);
        if listed.contains(n) {
            let k = choose|k: int| 0 <= k < listed.len() && listed[k] == n;
            if k < head.len() {
                assert(listed[k] == head[k]);
                assert(head[k] == n);
                assert(head.contains(n));
                assert(names.contains(n));
            } else {
                assert(listed[k] == tail[k - head.len()]);
                assert(tail[k - head.len()] == n);
                assert(tail.contains(n));
                assert(names.contains(n));
            }
        }
        if names.contains(n) {
            if is_builtin_material(n) {
                assert(head.contains(n));
                let k = choose|k: int| 0 <= k < head.len() && head[k] == n;
                assert(listed[k] == n);
            } else {
                assert(tail.contains(n));
                let k = choose|k: int| 0 <= k < tail.len() && tail[k] == n;
                assert(listed[k + head.len()] == n);
            }
        }
    }
    assert forall|i: int, j: int| 0 <= i < j < listed.len() implies listed[i] != listed[j] by {
        if j < head.len() {
            assert(listed[i] == head[i] && listed[j] == head[j]);
        } else if i >= head.len() {
            assert(listed[i] == tail[i - head.len()] && listed[j] == tail[j - head.len()]);
        } else {
            assert(listed[i] == head[i]);
            assert(head.contains(head[i]));
            lemma_names_kept_contains(builtins, names, head[i]);
            assert(is_builtin_material(head[i]));
            assert(tail.contains(tail[j - head.len()]));
            assert(!is_builtin_material(tail[j - head.len()]));
            assert(listed[j] == tail[j - head.len()]);
        }
    }
    if material_listing(names, other) {
        let otail = other.skip(head.len() as int);
        lemma_sorted_unique(tail, otail);
        assert(other =~= head + otail);
    }
}

} // verus!
