//! Per-block face textures and the registry that maps block names to them.

use vstd::prelude::*;
use vstd::string::*;
use crate::assoc::{
    has_key, insert_spec, keyed_view, keys_distinct, lookup, get_value, insert_value, find_key,
    lemma_insert_distinct, lemma_lookup_first,
};

verus! {

/// How a block's textures are coloured by the biome.
#[derive(Clone, Copy, Debug, PartialEq, Eq, Structural)]
pub enum Tint {
    Untinted,
    Grass,
    Foliage,
}

/// The texture names of the six faces of a block, with an optional overlay
/// drawn over its sides.
#[derive(Clone, Debug)]
pub struct FaceTextures {
    pub top: String,
    pub bottom: String,
    pub north: String,
    pub south: String,
    pub east: String,
    pub west: String,
    pub side_overlay: Option<String>,
    pub tint: Tint,
}

/// The texture names of one block by their characters: what a
/// [`FaceTextures`] value stands for.
pub struct FaceNames {
    pub top: Seq<char>,
    pub bottom: Seq<char>,
    pub north: Seq<char>,
    pub south: Seq<char>,
    pub east: Seq<char>,
    pub west: Seq<char>,
    pub side_overlay: Option<Seq<char>>,
    pub tint: Tint,
}

/// An optional owned string, by its characters.
pub open spec fn opt_string_view(o: Option<String>) -> Option<Seq<char>> {
    match o {
        Some(s) => Some(s@),
        None => None,
    }
}

/// An optional borrowed string, by its characters.
pub open spec fn opt_str_view(o: Option<&str>) -> Option<Seq<char>> {
    match o {
        Some(s) => Some(s@),
        None => None,
    }
}

/// A list of strings, by their characters.
pub open spec fn strings_view(v: Seq<String>) -> Seq<Seq<char>> {
    v.map_values(|s: String| s@)
}

impl View for FaceTextures {
    type V = FaceNames;

    open spec fn view(&self) -> FaceNames {
        FaceNames {
            top: self.top@,
            bottom: self.bottom@,
            north: self.north@,
            south: self.south@,
            east: self.east@,
            west: self.west@,
            side_overlay: opt_string_view(self.side_overlay),
            tint: self.tint,
        }
    }
}

/// The same texture name on all six faces, no overlay.
pub open spec fn uniform_names(name: Seq<char>, tint: Tint) -> FaceNames {
    FaceNames {
        top: name,
        bottom: name,
        north: name,
        south: name,
        east: name,
        west: name,
        side_overlay: None,
        tint,
    }
}

/// The texture names of one block, faces first in the order top, bottom,
/// north, south, east, west, then the overlay if there is one.
pub open spec fn face_names(ft: FaceNames) -> Seq<Seq<char>> {
    seq![ft.top, ft.bottom, ft.north, ft.south, ft.east, ft.west] + match ft.side_overlay {
        Some(o) => seq![o],
        None => Seq::empty(),
    }
}

/// The texture names of all blocks of a table, block after block.
pub open spec fn all_face_names(s: Seq<(Seq<char>, FaceNames)>) -> Seq<Seq<char>>
    decreases s.len(),
{
    if s.len() == 0 {
        Seq::empty()
    } else {
        all_face_names(s.drop_last()) + face_names(s.last().1)
    }
}

impl FaceTextures {
    /// Face textures from the six face names, an optional side overlay and a tint.
    pub fn new(
        top: &str,
        bottom: &str,
        north: &str,
        south: &str,
        east: &str,
        west: &str,
        side_overlay: Option<&str>,
        tint: Tint,
    ) -> (r: Self)
        ensures
            r@ == (FaceNames {
                top: top@,
                bottom: bottom@,
                north: north@,
                south: south@,
                east: east@,
                west: west@,
                side_overlay: opt_str_view(side_overlay),
                tint,
            }),
    {
        let overlay = match side_overlay {
            Some(s) => Some(s.to_owned()),
            None => None,
        };
        FaceTextures {
            top: top.to_owned(),
            bottom: bottom.to_owned(),
            north: north.to_owned(),
            south: south.to_owned(),
            east: east.to_owned(),
            west: west.to_owned(),
            side_overlay: overlay,
            tint,
        }
    }

    /// The same texture on all six faces, no overlay.
    pub fn uniform(name: &str, tint: Tint) -> (r: Self)
        ensures
            r@ == uniform_names(name@, tint),
    {
        Self::new(name, name, name, name, name, name, None, tint)
    }
}

/// Block name to face textures, one entry per name, in insertion order.
pub struct BlockTextures {
    entries: Vec<(String, FaceTextures)>,
}

impl View for BlockTextures {
    type V = Seq<(Seq<char>, FaceNames)>;

    closed spec fn view(&self) -> Seq<(Seq<char>, FaceNames)> {
        keyed_view(self.entries@)
    }
}

/// The table with `v` stored under `k` unless `k` already has an entry.
pub open spec fn insert_if_absent_spec(
    s: Seq<(Seq<char>, FaceNames)>,
    k: Seq<char>,
    v: FaceNames,
) -> Seq<(Seq<char>, FaceNames)> {
    if has_key(s, k) {
        s
    } else {
        s.push((k, v))
    }
}

impl BlockTextures {
    #[verifier::type_invariant]
    spec fn inv(self) -> bool {
        keys_distinct(keyed_view(self.entries@))
    }

    /// An empty table.
    pub fn new() -> (r: Self)
        ensures
            r@ == Seq::<(Seq<char>, FaceNames)>::empty(),
    {
        let r = BlockTextures { entries: Vec::new() };
        assert(keyed_view(r.entries@) =~= Seq::<(Seq<char>, FaceNames)>::empty());
        r
    }

    /// The number of blocks in the table.
    pub fn len(&self) -> (r: usize)
        ensures
            r == self@.len(),
    {
        self.entries.len()
    }

    /// The entries, in insertion order.
    pub fn entries(&self) -> (r: &Vec<(String, FaceTextures)>)
        ensures
            keyed_view(r@) == self@,
            keys_distinct(self@),
    {
        proof {
            use_type_invariant(self);
        }
        &self.entries
    }

    /// The textures of block `name`.
    pub fn get(&self, name: &str) -> (r: Option<&FaceTextures>)
        ensures
            r matches Some(t) ==> lookup(self@, name@) == Some(t@),
            r is None ==> lookup(self@, name@) is None,
    {
        get_value(&self.entries, name)
    }

    /// Stores `textures` under `name`, replacing what was there.
    pub fn insert(&mut self, name: String, textures: FaceTextures)
        ensures
            final(self)@ == insert_spec(old(self)@, name@, textures@),
    {
        proof {
            use_type_invariant(&*self);
        }
        let ghost before = self@;
        let ghost k = name@;
        let ghost v = textures@;
        let mut entries: Vec<(String, FaceTextures)> = Vec::new();
        std::mem::swap(&mut entries, &mut self.entries);
        insert_value(&mut entries, name, textures);
        proof {
            lemma_insert_distinct(before, k, v);
        }
        self.entries = entries;
    }

    /// Stores `textures` under `name` unless the table has an entry for it.
    pub fn insert_if_absent(&mut self, name: String, textures: FaceTextures)
        ensures
            final(self)@ == insert_if_absent_spec(old(self)@, name@, textures@),
    {
        proof {
            use_type_invariant(&*self);
        }
        let ghost before = self@;
        match find_key(&self.entries, name.as_str()) {
            Some(i) => {
                assert(before[i as int].0 == name@);
            },
            None => {
                assert(!has_key(before, name@));
                let mut entries: Vec<(String, FaceTextures)> = Vec::new();
                std::mem::swap(&mut entries, &mut self.entries);
                let ghost k = name@;
                let ghost v = textures@;
                entries.push((name, textures));
                assert(keyed_view(entries@) =~= before.push((k, v)));
                self.entries = entries;
            },
        }
    }
}


/// The table with fallback textures for water and lava, each added only where
/// the table has no entry for it yet.
pub open spec fn with_fluid_defaults(s: Seq<(Seq<char>, FaceNames)>) -> Seq<(Seq<char>, FaceNames)> {
    insert_if_absent_spec(
        insert_if_absent_spec(s, "water"@, uniform_names("water_still"@, Tint::Untinted)),
        "lava"@,
        uniform_names("lava_still"@, Tint::Untinted),
    )
}

/// The textures of every block, looked up by block name.
pub struct BlockRegistry {
    textures: BlockTextures,
}

impl View for BlockRegistry {
    type V = Seq<(Seq<char>, FaceNames)>;

    closed spec fn view(&self) -> Seq<(Seq<char>, FaceNames)> {
        self.textures@
    }
}

impl BlockRegistry {
    /// The registry built from a fresh scan of the block models: the scanned
    /// table, with still water and still lava textures for the fluids where the
    /// scan found none.
    pub fn load(scanned: BlockTextures) -> (r: Self)
        ensures
            r@ == with_fluid_defaults(scanned@),
    {
        let mut textures = scanned;
        textures.insert_if_absent("water".to_owned(), FaceTextures::uniform("water_still", Tint::Untinted));
        textures.insert_if_absent("lava".to_owned(), FaceTextures::uniform("lava_still", Tint::Untinted));
        BlockRegistry { textures }
    }

    /// The registry read back from a cache, taken as it is.
    pub fn from_cached(cached: BlockTextures) -> (r: Self)
        ensures
            r@ == cached@,
    {
        BlockRegistry { textures: cached }
    }

    /// The table behind the registry.
    pub fn textures(&self) -> (r: &BlockTextures)
        ensures
            r@ == self@,
    {
        &self.textures
    }

    /// The textures of the block with string id `block_id` (such as `stone`).
    pub fn get_textures(&self, block_id: &str) -> (r: Option<&FaceTextures>)
        ensures
            r matches Some(t) ==> lookup(self@, block_id@) == Some(t@),
            r is None ==> lookup(self@, block_id@) is None,
    {
        self.textures.get(block_id)
    }

    /// Every texture name the registry refers to, block by block in table
    /// order, each block's faces then its overlay; names used twice appear twice.
    pub fn texture_names(&self) -> (r: Vec<String>)
        ensures
            strings_view(r@) == all_face_names(self@),
    {
        let entries = self.textures.entries();
        let n: usize = entries.len();
        let mut names: Vec<String> = Vec::new();
        let mut i: usize = 0;
        while i < n
            invariant
                n == entries@.len(),
                i <= n,
                keyed_view(entries@) == self@,
                strings_view(names@) == all_face_names(self@.take(i as int)),
            decreases n - i,
        {
            let ft = &entries[i].1;
            let ghost before = names@;
            names.push(ft.top.clone());
            names.push(ft.bottom.clone());
            names.push(ft.north.clone());
            names.push(ft.south.clone());
            names.push(ft.east.clone());
            names.push(ft.west.clone());
            match &ft.side_overlay {
                Some(o) => {
                    names.push(o.clone());
                },
                None => {},
            }
            proof {
                let s = self@;
                assert(s.take(i + 1).drop_last() =~= s.take(i as int));
                assert(s.take(i + 1).last().1 == ft@);
                assert(strings_view(names@) =~= strings_view(before) + face_names(ft@));
            }
            i = i + 1;
        }
        assert(self@.take(n as int) =~= self@);
        names
    }
}

/// A freshly loaded registry has textures for water and lava: those the scan
/// found, else untinted `water_still` and `lava_still` on every face; every
/// block the scan found keeps the textures the scan gave it.
pub proof fn lemma_load_fluids(scanned: Seq<(Seq<char>, FaceNames)>, name: Seq<char>)
    ensures
        has_key(with_fluid_defaults(scanned), "water"@),
        has_key(with_fluid_defaults(scanned), "lava"@),
        has_key(scanned, name) ==> lookup(with_fluid_defaults(scanned), name) == lookup(scanned, name),
        !has_key(scanned, "water"@) ==> lookup(with_fluid_defaults(scanned), "water"@) == Some(
            uniform_names("water_still"@, Tint::Untinted),
        ),
        !has_key(scanned, "lava"@) ==> lookup(with_fluid_defaults(scanned), "lava"@) == Some(
            uniform_names("lava_still"@, Tint::Untinted),
        ),
{
    let w = insert_if_absent_spec(scanned, "water"@, uniform_names("water_still"@, Tint::Untinted));
    let r = with_fluid_defaults(scanned);
    reveal_strlit("water");
    reveal_strlit("lava");
    assert("water"@ != "lava"@) by {
        assert("water"@.len() != "lava"@.len());
    }
    if !has_key(scanned, "water"@) {
        assert(w[scanned.len() as int].0 == "water"@);
        lemma_lookup_first(w, "water"@, scanned.len() as int);
        assert(has_key(w, "water"@));
        assert(r.subrange(0, w.len() as int) =~= w);
        lemma_lookup_prefix(w, r, "water"@);
    }
    if !has_key(scanned, "lava"@) {
        assert(!has_key(w, "lava"@)) by {
            if has_key(w, "lava"@) {
                let i = choose|i: int| 0 <= i < w.len() && w[i].0 == "lava"@;
                if i < scanned.len() {
                    assert(scanned[i].0 == "lava"@);
                }
            }
        }
        assert(r == w.push(("lava"@, uniform_names("lava_still"@, Tint::Untinted))));
        lemma_lookup_first(r, "lava"@, w.len() as int);
    }
    assert(has_key(w, "water"@));
    let wi = choose|i: int| 0 <= i < w.len() && w[i].0 == "water"@;
    assert(r[wi].0 == "water"@);
    if !has_key(w, "lava"@) {
        assert(r[w.len() as int].0 == "lava"@);
    }
    if has_key(scanned, name) {
        assert(w.subrange(0, scanned.len() as int) =~= scanned);
        assert(r.subrange(0, w.len() as int) =~= w);
        lemma_lookup_prefix(scanned, w, name);
        lemma_lookup_prefix(w, r, name);
    }
}

/// Appending entries does not change what a key already present yields.
proof fn lemma_lookup_prefix(s: Seq<(Seq<char>, FaceNames)>, t: Seq<(Seq<char>, FaceNames)>, k: Seq<char>)
    requires
        has_key(s, k),
        s.len() <= t.len(),
        t.subrange(0, s.len() as int) == s,
    ensures
        lookup(t, k) == lookup(s, k),
        has_key(t, k),
    decreases s.len(),
{
    if s[0].0 != k {
        let i = choose|i: int| 0 <= i < s.len() && s[i].0 == k;
        assert(s.drop_first()[i - 1].0 == k);
        assert(t.drop_first().subrange(0, s.len() - 1) =~= s.drop_first());
        lemma_lookup_prefix(s.drop_first(), t.drop_first(), k);
    }
    assert(t[0] == s[0]);
}

} // verus!
