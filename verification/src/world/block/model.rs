//! Block state and block model files: picking the default model of a block,
//! following model parents, resolving texture references and choosing the
//! face textures of a block.

use vstd::prelude::*;
use vstd::string::*;
use crate::assoc::{
    get_value, has_key, keyed_view, lookup, lemma_lookup_first,
    lemma_lookup_absent, find_key, insert_absent, merge_first, keys_distinct,
    lemma_insert_absent_distinct, lemma_lookup_merge_first,
};
use crate::text::{
    ends_with, has_suffix, str_eq, strip_prefix, strip_prefix_or_self,
    strip_prefix_or_self_spec, strip_prefix_spec,
};
use crate::world::block::registry::{opt_str_view, uniform_names, FaceNames, FaceTextures, Tint};

verus! {

/// A reference from a block state to a model, such as `minecraft:block/stone`.
pub struct ModelRef {
    pub model: String,
}

/// The models of one variant of a block state: one model, or several to pick from.
pub enum VariantEntry {
    Single(ModelRef),
    Array(Vec<ModelRef>),
}

/// One case of a multipart block state.
pub struct MultipartCase {
    pub apply: MultipartApply,
}

/// The models a multipart case applies: one model, or several to pick from.
pub enum MultipartApply {
    Single(ModelRef),
    Array(Vec<ModelRef>),
}

/// A block state file: its variants by property string, or its multipart cases.
pub struct BlockstateFile {
    pub variants: Option<Vec<(String, VariantEntry)>>,
    pub multipart: Option<Vec<MultipartCase>>,
}

/// A block model file: its parent model, if any, and its texture variables.
pub struct ModelFile {
    pub parent: Option<String>,
    pub textures: Vec<(String, String)>,
}

/// The model a variant entry names first.
pub open spec fn first_model_ref_spec(entry: VariantEntry) -> Option<Seq<char>> {
    match entry {
        VariantEntry::Single(r) => Some(r.model@),
        VariantEntry::Array(arr) => if arr@.len() > 0 {
            Some(arr@[0].model@)
        } else {
            None
        },
    }
}

/// The model a multipart case names first.
pub open spec fn first_multipart_model_spec(apply: MultipartApply) -> Option<Seq<char>> {
    match apply {
        MultipartApply::Single(r) => Some(r.model@),
        MultipartApply::Array(arr) => if arr@.len() > 0 {
            Some(arr@[0].model@)
        } else {
            None
        },
    }
}

/// The variants of a block state with their keys by characters.
pub open spec fn variants_view(v: Seq<(String, VariantEntry)>) -> Seq<(Seq<char>, VariantEntry)> {
    v.map_values(|e: (String, VariantEntry)| (e.0@, e.1))
}

/// The default model of a block state: the first model of the variant with the
/// empty key, or else of the first variant; a block state without variants
/// takes the first model of its first multipart case.
pub open spec fn default_model(b: BlockstateFile) -> Option<Seq<char>> {
    match b.variants {
        Some(v) => {
            let kv = variants_view(v@);
            let chosen = match lookup(kv, Seq::<char>::empty()) {
                Some(e) => Some(e),
                None => if kv.len() > 0 {
                    Some(kv[0].1)
                } else {
                    None
                },
            };
            match chosen {
                Some(e) => first_model_ref_spec(e),
                None => None,
            }
        },
        None => match b.multipart {
            Some(m) => if m@.len() > 0 {
                first_multipart_model_spec(m@[0].apply)
            } else {
                None
            },
            None => None,
        },
    }
}

/// The model a variant entry names first.
pub fn first_model_ref(entry: &VariantEntry) -> (r: Option<String>)
    ensures
        opt_string_of(r) == first_model_ref_spec(*entry),
{
    match entry {
        VariantEntry::Single(r) => Some(r.model.clone()),
        VariantEntry::Array(arr) => if arr.len() > 0 {
            Some(arr[0].model.clone())
        } else {
            None
        },
    }
}

/// The model a multipart case names first.
pub fn first_multipart_model(apply: &MultipartApply) -> (r: Option<String>)
    ensures
        opt_string_of(r) == first_multipart_model_spec(*apply),
{
    match apply {
        MultipartApply::Single(r) => Some(r.model.clone()),
        MultipartApply::Array(arr) => if arr.len() > 0 {
            Some(arr[0].model.clone())
        } else {
            None
        },
    }
}

/// An optional owned string, by its characters.
pub open spec fn opt_string_of(o: Option<String>) -> Option<Seq<char>> {
    match o {
        Some(s) => Some(s@),
        None => None,
    }
}

/// The model a block is drawn with when nothing is known of its state.
pub fn extract_default_model(blockstate: &BlockstateFile) -> (r: Option<String>)
    ensures
        opt_string_of(r) == default_model(*blockstate),
{
    match &blockstate.variants {
        Some(variants) => {
            let ghost kv = variants_view(variants@);
            let n: usize = variants.len();
            let mut i: usize = 0;
            while i < n
                invariant
                    blockstate.variants == Some(*variants),
                    n == variants@.len(),
                    kv == variants_view(variants@),
                    i <= n,
                    forall|j: int| 0 <= j < i ==> kv[j].0 != Seq::<char>::empty(),
                decreases n - i,
            {
                let key_len: usize = variants[i].0.as_str().unicode_len();
                if key_len == 0 {
                    proof {
                        assert(kv[i as int].0 =~= Seq::<char>::empty());
                        lemma_lookup_first(kv, Seq::<char>::empty(), i as int);
                    }
                    return first_model_ref(&variants[i].1);
                }
                i = i + 1;
            }
            proof {
                lemma_lookup_absent(kv, Seq::<char>::empty());
            }
            if n > 0 {
                first_model_ref(&variants[0].1)
            } else {
                None
            }
        },
        None => match &blockstate.multipart {
            Some(multipart) => if multipart.len() > 0 {
                first_multipart_model(&multipart[0].apply)
            } else {
                None
            },
            None => None,
        },
    }
}


/// The texture name a texture reference points at: the reference without a
/// `minecraft:` namespace, then without the `block/` folder it must start with.
pub open spec fn texture_to_name_spec(texture_ref: Seq<char>) -> Option<Seq<char>> {
    strip_prefix_spec(strip_prefix_or_self_spec(texture_ref, "minecraft:"@), "block/"@)
}

/// The block texture name of a texture reference, if it points into `block/`.
pub fn texture_to_name(texture_ref: &str) -> (r: Option<&str>)
    ensures
        opt_str_view(r) == texture_to_name_spec(texture_ref@),
{
    let stripped = strip_prefix_or_self(texture_ref, "minecraft:");
    strip_prefix(stripped, "block/")
}

/// The asset key of a model file: `minecraft/models/<id>.json`, the id taken
/// without its `minecraft:` namespace.
pub open spec fn asset_key_spec(model_id: Seq<char>) -> Seq<char> {
    "minecraft/models/"@ + strip_prefix_or_self_spec(model_id, "minecraft:"@) + ".json"@
}

/// The asset key under which the model `model_id` is stored.
pub fn model_id_to_asset_key(model_id: &str) -> (r: String)
    ensures
        r@ == asset_key_spec(model_id@),
{
    let stripped = strip_prefix_or_self(model_id, "minecraft:");
    let mut key = String::from_str("minecraft/models/");
    key.append(stripped);
    key.append(".json");
    key
}

/// Blocks whose textures take the grass colour.
pub open spec fn grass_tinted(name: Seq<char>) -> bool {
    ||| name == "grass_block"@
    ||| name == "short_grass"@
    ||| name == "tall_grass"@
    ||| name == "fern"@
    ||| name == "large_fern"@
}

/// Leaf blocks listed by name as taking the foliage colour.
pub open spec fn foliage_tinted(name: Seq<char>) -> bool {
    ||| name == "oak_leaves"@
    ||| name == "dark_oak_leaves"@
    ||| name == "jungle_leaves"@
    ||| name == "acacia_leaves"@
    ||| name == "mangrove_leaves"@
}

/// The biome tint of a block: grass for the grass-like blocks, foliage for the
/// listed leaves and any block whose name ends in `_leaves`, none otherwise.
pub open spec fn tint_for(name: Seq<char>) -> Tint {
    if grass_tinted(name) {
        Tint::Grass
    } else if foliage_tinted(name) || has_suffix(name, "_leaves"@) {
        Tint::Foliage
    } else {
        Tint::Untinted
    }
}

/// The biome tint of the block `block_name`.
pub fn determine_tint(block_name: &str) -> (r: Tint)
    ensures
        r == tint_for(block_name@),
{
    let grass = str_eq(block_name, "grass_block") || str_eq(block_name, "short_grass")
        || str_eq(block_name, "tall_grass") || str_eq(block_name, "fern")
        || str_eq(block_name, "large_fern");
    if grass {
        return Tint::Grass;
    }
    let foliage = str_eq(block_name, "oak_leaves") || str_eq(block_name, "dark_oak_leaves")
        || str_eq(block_name, "jungle_leaves") || str_eq(block_name, "acacia_leaves")
        || str_eq(block_name, "mangrove_leaves");
    if foliage || ends_with(block_name, "_leaves") {
        Tint::Foliage
    } else {
        Tint::Untinted
    }
}

/// The value a texture variable resolves to: a value `#name` stands for the
/// variable `name` where the map has it, followed until a plain value, a
/// missing variable, or more than ten references deep.
pub open spec fn resolve_ref_spec(value: Seq<char>, map: Seq<(Seq<char>, Seq<char>)>, depth: nat) -> Seq<char>
    decreases 11 - depth,
{
    if depth > 10 {
        value
    } else {
        match strip_prefix_spec(value, "#"@) {
            Some(name) => match lookup(map, name) {
                Some(target) => resolve_ref_spec(target, map, depth + 1),
                None => value,
            },
            None => value,
        }
    }
}

/// Resolves the texture variable reference `value` against `map`, having
/// followed `depth` references already.
pub fn resolve_ref(value: &str, map: &Vec<(String, String)>, depth: u32) -> (r: String)
    ensures
        r@ == resolve_ref_spec(value@, keyed_view(map@), depth as nat),
    decreases 11 - depth,
{
    if depth > 10 {
        return value.to_owned();
    }
    if let Some(ref_name) = strip_prefix(value, "#") {
        if let Some(target) = get_value(map, ref_name) {
            return resolve_ref(target.as_str(), map, depth + 1);
        }
    }
    value.to_owned()
}


/// The most models a chain of parents is followed through.
pub const MAX_MODEL_CHAIN: u32 = 20;

/// Where a texture chain stands: the texture variables gathered so far, the
/// model to load next, and how many models have been merged.
pub struct ChainState {
    pub map: Seq<(Seq<char>, Seq<char>)>,
    pub pending: Option<Seq<char>>,
    pub loaded: nat,
}

/// The texture variables of a model followed up through its parents: the
/// model itself is loaded first, then each parent, until a model has no
/// parent, cannot be loaded, or twenty models have been merged. A variable set
/// by a model wins over the same variable in its parents.
pub struct TextureChain {
    texture_map: Vec<(String, String)>,
    pending: Option<String>,
    loaded: u32,
}

impl View for TextureChain {
    type V = ChainState;

    closed spec fn view(&self) -> ChainState {
        ChainState {
            map: keyed_view(self.texture_map@),
            pending: opt_string_of(self.pending),
            loaded: self.loaded as nat,
        }
    }
}

/// The chain after a model is merged, or after the model to load next could
/// not be loaded (`None`).
pub open spec fn visit_spec(c: ChainState, model: Option<(Seq<(Seq<char>, Seq<char>)>, Option<Seq<char>>)>) -> ChainState {
    if c.pending is None {
        c
    } else {
        match model {
            None => ChainState { map: c.map, pending: None, loaded: c.loaded },
            Some((textures, parent)) => ChainState {
                map: merge_first(c.map, textures),
                pending: if c.loaded + 1 < MAX_MODEL_CHAIN {
                    parent
                } else {
                    None
                },
                loaded: c.loaded + 1,
            },
        }
    }
}

/// A model file by its texture variables and parent.
pub open spec fn model_view(m: ModelFile) -> (Seq<(Seq<char>, Seq<char>)>, Option<Seq<char>>) {
    (keyed_view(m.textures@), opt_string_of(m.parent))
}

/// Merging a model into the chain: a variable that the chain already has,
/// from a model closer to the block, keeps its value; one it lacks takes the
/// merged model's first value for it. The chain then waits for that model's
/// parent, unless twenty models have been merged. A model that could not be
/// loaded ends the chain as it stands, and a finished chain takes in nothing.
pub proof fn lemma_visit_child_wins(
    c: ChainState,
    textures: Seq<(Seq<char>, Seq<char>)>,
    parent: Option<Seq<char>>,
    q: Seq<char>,
)
    ensures
        c.pending is Some ==> lookup(visit_spec(c, Some((textures, parent))).map, q) == (if has_key(c.map, q) {
            lookup(c.map, q)
        } else {
            lookup(textures, q)
        }),
        c.pending is Some ==> visit_spec(c, Some((textures, parent))).pending == (if c.loaded + 1 < MAX_MODEL_CHAIN {
            parent
        } else {
            None
        }),
        c.pending is Some ==> visit_spec(c, Some((textures, parent))).loaded == c.loaded + 1,
        visit_spec(c, None).map == c.map,
        visit_spec(c, None).pending is None,
        c.pending is None ==> visit_spec(c, Some((textures, parent))) == c,
{
    lemma_lookup_merge_first(c.map, textures, q);
}

/// Every texture variable of a map resolved against the map.
pub open spec fn resolved_map(map: Seq<(Seq<char>, Seq<char>)>) -> Seq<(Seq<char>, Seq<char>)> {
    map.map_values(|e: (Seq<char>, Seq<char>)| (e.0, resolve_ref_spec(e.1, map, 0)))
}

/// A value that refers to no variable of `map`: a plain texture, or a `#name`
/// whose variable the map lacks.
pub open spec fn is_chain_end(value: Seq<char>, map: Seq<(Seq<char>, Seq<char>)>) -> bool {
    match strip_prefix_spec(value, "#"@) {
        Some(name) => lookup(map, name) is None,
        None => true,
    }
}

/// Where the chain of references from `value` stands after `k` steps: each
/// step replaces a `#name` by the value of the variable `name`, and a chain
/// end stays where it is.
pub open spec fn chain_step(value: Seq<char>, map: Seq<(Seq<char>, Seq<char>)>, k: nat) -> Seq<char>
    decreases k,
{
    if k == 0 || is_chain_end(value, map) {
        value
    } else {
        chain_step(lookup(map, strip_prefix_spec(value, "#"@)->0)->0, map, (k - 1) as nat)
    }
}

/// Resolving from depth `depth` takes `11 - depth` steps along the chain.
proof fn lemma_resolve_steps(value: Seq<char>, map: Seq<(Seq<char>, Seq<char>)>, depth: nat)
    requires
        depth <= 11,
    ensures
        resolve_ref_spec(value, map, depth) == chain_step(value, map, (11 - depth) as nat),
    decreases 11 - depth,
{
    if depth <= 10 {
        if !is_chain_end(value, map) {
            let target = lookup(map, strip_prefix_spec(value, "#"@)->0)->0;
            lemma_resolve_steps(target, map, depth + 1);
        }
    }
}

/// Once the chain has reached its end, further steps leave it there.
proof fn lemma_chain_end_stays(value: Seq<char>, map: Seq<(Seq<char>, Seq<char>)>, k: nat, j: nat)
    requires
        k <= j,
        is_chain_end(chain_step(value, map, k), map),
    ensures
        chain_step(value, map, j) == chain_step(value, map, k),
    decreases k,
{
    if k > 0 && !is_chain_end(value, map) {
        let target = lookup(map, strip_prefix_spec(value, "#"@)->0)->0;
        lemma_chain_end_stays(target, map, (k - 1) as nat, (j - 1) as nat);
    }
}

/// Resolving a map follows each variable's chain of `#` references to its
/// end: where the chain from an entry's value ends within eleven references,
/// the entry resolves to that end, which refers to no variable of the map;
/// the entry keeps its key and its place.
pub proof fn lemma_resolved_chain_end(map: Seq<(Seq<char>, Seq<char>)>, i: int, k: nat)
    requires
        0 <= i < map.len(),
        k <= 11,
        is_chain_end(chain_step(map[i].1, map, k), map),
    ensures
        resolved_map(map).len() == map.len(),
        resolved_map(map)[i].0 == map[i].0,
        resolved_map(map)[i].1 == chain_step(map[i].1, map, k),
        is_chain_end(resolved_map(map)[i].1, map),
{
    lemma_resolve_steps(map[i].1, map, 0);
    lemma_chain_end_stays(map[i].1, map, k, 11);
}

impl TextureChain {
    #[verifier::type_invariant]
    spec fn inv(self) -> bool {
        &&& self.loaded <= MAX_MODEL_CHAIN
        &&& self.loaded == MAX_MODEL_CHAIN ==> self.pending is None
        &&& keys_distinct(keyed_view(self.texture_map@))
    }

    /// A chain that starts at the model `model_id`.
    pub fn start(model_id: &str) -> (r: Self)
        ensures
            r@ == (ChainState { map: Seq::empty(), pending: Some(model_id@), loaded: 0 }),
    {
        let r = TextureChain { texture_map: Vec::new(), pending: Some(model_id.to_owned()), loaded: 0 };
        assert(keyed_view(r.texture_map@) =~= Seq::<(Seq<char>, Seq<char>)>::empty());
        r
    }

    /// The model to load next, or `None` once the chain is complete.
    pub fn pending(&self) -> (r: Option<&str>)
        ensures
            opt_str_view(r) == self@.pending,
            self@.loaded <= MAX_MODEL_CHAIN,
            self@.loaded == MAX_MODEL_CHAIN ==> r is None,
    {
        proof {
            use_type_invariant(self);
        }
        match &self.pending {
            Some(id) => Some(id.as_str()),
            None => None,
        }
    }

    /// Takes in the model the chain asked for, or `None` where it could not be
    /// loaded, which ends the chain.
    pub fn visit(&mut self, model: Option<&ModelFile>)
        ensures
            final(self)@ == visit_spec(
                old(self)@,
                match model {
                    Some(m) => Some(model_view(*m)),
                    None => None,
                },
            ),
    {
        proof {
            use_type_invariant(&*self);
        }
        if self.pending.is_none() {
            return;
        }
        match model {
            None => {
                self.pending = None;
            },
            Some(m) => {
                let mut map: Vec<(String, String)> = Vec::new();
                std::mem::swap(&mut map, &mut self.texture_map);
                let ghost start = keyed_view(map@);
                let ghost entries = keyed_view(m.textures@);
                let n: usize = m.textures.len();
                let mut i: usize = 0;
                assert(entries.skip(0) =~= entries);
                while i < n
                    invariant
                        n == m.textures@.len(),
                        entries == keyed_view(m.textures@),
                        i <= n,
                        keys_distinct(keyed_view(map@)),
                        merge_first(start, entries) == merge_first(keyed_view(map@), entries.skip(i as int)),
                    decreases n - i,
                {
                    let ghost cur = keyed_view(map@);
                    let key = &m.textures[i].0;
                    let value = &m.textures[i].1;
                    proof {
                        assert(entries.skip(i as int).drop_first() =~= entries.skip(i + 1));
                        assert(entries.skip(i as int)[0] == (key@, value@));
                    }
                    if find_key(&map, key.as_str()).is_none() {
                        proof {
                            assert(!has_key(cur, key@));
                            lemma_insert_absent_distinct(cur, key@, value@);
                        }
                        map.push((key.clone(), value.clone()));
                        assert(keyed_view(map@) =~= insert_absent(cur, key@, value@));
                    } else {
                        proof {
                            let j = choose|j: int| 0 <= j < map@.len() && map@[j].0@ == key@;
                            assert(cur[j].0 == key@);
                        }
                    }
                    i = i + 1;
                }
                assert(entries.skip(n as int).len() == 0);
                self.texture_map = map;
                let loaded: u32 = self.loaded + 1;
                let pending = if loaded < MAX_MODEL_CHAIN {
                    match &m.parent {
                        Some(p) => Some(p.clone()),
                        None => None,
                    }
                } else {
                    None
                };
                self.pending = pending;
                self.loaded = loaded;
            },
        }
    }

    /// The texture variables gathered so far, each resolved against the others.
    pub fn resolve_textures(&self) -> (r: Vec<(String, String)>)
        ensures
            keyed_view(r@) == resolved_map(self@.map),
            r@.len() == self@.map.len(),
            forall|i: int, k: nat|
                0 <= i < self@.map.len() && k <= 11
                    && #[trigger] is_chain_end(chain_step(self@.map[i].1, self@.map, k), self@.map) ==> {
                    &&& r@[i].0@ == self@.map[i].0
                    &&& r@[i].1@ == chain_step(self@.map[i].1, self@.map, k)
                },
    {
        let n: usize = self.texture_map.len();
        let mut resolved: Vec<(String, String)> = Vec::new();
        let mut i: usize = 0;
        while i < n
            invariant
                n == self.texture_map@.len(),
                i <= n,
                keyed_view(resolved@) == resolved_map(self@.map).take(i as int),
            decreases n - i,
        {
            let key = self.texture_map[i].0.clone();
            let value = resolve_ref(self.texture_map[i].1.as_str(), &self.texture_map, 0);
            proof {
                let mv = self@.map;
                assert(mv[i as int] == (self.texture_map@[i as int].0@, self.texture_map@[i as int].1@));
                assert(resolved_map(mv)[i as int] == (key@, value@));
            }
            let ghost before = resolved@;
            resolved.push((key, value));
            assert(keyed_view(resolved@) =~= keyed_view(before).push(resolved_map(self@.map)[i as int]));
            assert(keyed_view(resolved@) =~= resolved_map(self@.map).take(i + 1));
            i = i + 1;
        }
        assert(resolved_map(self@.map).take(n as int) =~= resolved_map(self@.map));
        proof {
            let mv = self@.map;
            assert forall|i: int, k: nat|
                0 <= i < mv.len() && k <= 11
                    && #[trigger] is_chain_end(chain_step(mv[i].1, mv, k), mv) implies {
                    &&& resolved@[i].0@ == mv[i].0
                    &&& resolved@[i].1@ == chain_step(mv[i].1, mv, k)
                } by {
                lemma_resolved_chain_end(mv, i, k);
                assert(keyed_view(resolved@)[i] == (resolved@[i].0@, resolved@[i].1@));
            }
        }
        resolved
    }
}


/// The block texture name the variable `key` of a resolved texture map
/// points at.
pub open spec fn tex(t: Seq<(Seq<char>, Seq<char>)>, key: Seq<char>) -> Option<Seq<char>> {
    match lookup(t, key) {
        Some(v) => texture_to_name_spec(v),
        None => None,
    }
}

/// `a` where it is present, else `b`.
pub open spec fn or_else(a: Option<Seq<char>>, b: Seq<char>) -> Seq<char> {
    match a {
        Some(x) => x,
        None => b,
    }
}

/// Face names given face by face.
pub open spec fn names_of(
    top: Seq<char>,
    bottom: Seq<char>,
    north: Seq<char>,
    south: Seq<char>,
    east: Seq<char>,
    west: Seq<char>,
    side_overlay: Option<Seq<char>>,
    tint: Tint,
) -> FaceNames {
    FaceNames { top, bottom, north, south, east, west, side_overlay, tint }
}

/// The face textures of block `block` from its resolved texture variables, by
/// the first layout that fits: six named faces (`up`, `down`, `north`,
/// `south`, `east`, `west`; the grass block also gets its side overlay and the
/// grass tint); one texture for `all` faces; `end` and `side` (as for logs,
/// untinted); `top` and `side` with an optional `bottom`; a `cross` plant;
/// `front` and `side` (untinted); or at last the `particle` texture.
pub open spec fn face_textures_spec(block: Seq<char>, t: Seq<(Seq<char>, Seq<char>)>) -> Option<FaceNames> {
    let tint = tint_for(block);
    let up = tex(t, "up"@);
    let down = tex(t, "down"@);
    let north = tex(t, "north"@);
    let south = tex(t, "south"@);
    let east = tex(t, "east"@);
    let west = tex(t, "west"@);
    let all = tex(t, "all"@);
    let end = tex(t, "end"@);
    let side = tex(t, "side"@);
    let top = tex(t, "top"@);
    let bottom = tex(t, "bottom"@);
    let cross = tex(t, "cross"@);
    let front = tex(t, "front"@);
    let particle = tex(t, "particle"@);
    if up is Some && down is Some && north is Some && south is Some && east is Some && west is Some {
        let grass = block == "grass_block"@;
        Some(names_of(
            up->0,
            down->0,
            north->0,
            south->0,
            east->0,
            west->0,
            if grass { Some("grass_block_side_overlay"@) } else { None },
            if grass { Tint::Grass } else { tint },
        ))
    } else if all is Some {
        Some(uniform_names(all->0, tint))
    } else if end is Some && side is Some {
        Some(names_of(end->0, end->0, side->0, side->0, side->0, side->0, None, Tint::Untinted))
    } else if top is Some && side is Some {
        Some(names_of(top->0, or_else(bottom, top->0), side->0, side->0, side->0, side->0, None, tint))
    } else if cross is Some {
        Some(uniform_names(cross->0, tint))
    } else if front is Some && side is Some {
        let t_top = match top {
            Some(x) => x,
            None => or_else(end, side->0),
        };
        Some(names_of(t_top, or_else(bottom, t_top), front->0, side->0, side->0, side->0, None, Tint::Untinted))
    } else if particle is Some {
        Some(uniform_names(particle->0, tint))
    } else {
        None
    }
}

/// Whether all six face variables, `up`, `down`, `north`, `south`, `east` and
/// `west`, name block textures.
pub open spec fn six_faces(t: Seq<(Seq<char>, Seq<char>)>) -> bool {
    &&& tex(t, "up"@) is Some
    &&& tex(t, "down"@) is Some
    &&& tex(t, "north"@) is Some
    &&& tex(t, "south"@) is Some
    &&& tex(t, "east"@) is Some
    &&& tex(t, "west"@) is Some
}

/// The layouts of texture variables a block model may use.
pub enum FaceLayout {
    SixFaces,
    All,
    EndSide,
    TopSide,
    Cross,
    FrontSide,
    Particle,
    Unknown,
}

/// The layout a resolved texture map is read by: the first, in this order,
/// whose variables all name block textures.
pub open spec fn face_layout(t: Seq<(Seq<char>, Seq<char>)>) -> FaceLayout {
    if six_faces(t) {
        FaceLayout::SixFaces
    } else if tex(t, "all"@) is Some {
        FaceLayout::All
    } else if tex(t, "end"@) is Some && tex(t, "side"@) is Some {
        FaceLayout::EndSide
    } else if tex(t, "top"@) is Some && tex(t, "side"@) is Some {
        FaceLayout::TopSide
    } else if tex(t, "cross"@) is Some {
        FaceLayout::Cross
    } else if tex(t, "front"@) is Some && tex(t, "side"@) is Some {
        FaceLayout::FrontSide
    } else if tex(t, "particle"@) is Some {
        FaceLayout::Particle
    } else {
        FaceLayout::Unknown
    }
}

/// Whether the variables are read by the untinted `end`/`side` layout of logs
/// or the untinted `front`/`side` layout.
pub open spec fn untinted_layout(t: Seq<(Seq<char>, Seq<char>)>) -> bool {
    face_layout(t) is EndSide || face_layout(t) is FrontSide
}

/// What each layout makes of a block's faces. There are face textures exactly
/// when some layout fits. One texture, `all`, `cross` or at last `particle`,
/// covers every face. Logs take `end` on top and bottom and `side` around.
/// The `top`/`side` layout takes `bottom` below where it is given, else `top`.
/// The `front`/`side` layout shows `front` to the north and `side` on the
/// other faces, `bottom` below where it is given. All but the `end`/`side`
/// and `front`/`side` layouts take the block's biome tint.
pub proof fn lemma_face_layouts(block: Seq<char>, t: Seq<(Seq<char>, Seq<char>)>)
    ensures
        (face_textures_spec(block, t) is None) == (face_layout(t) is Unknown),
        face_layout(t) is All ==> face_textures_spec(block, t) == Some(uniform_names(tex(t, "all"@)->0, tint_for(block))),
        face_layout(t) is Cross ==> face_textures_spec(block, t) == Some(uniform_names(tex(t, "cross"@)->0, tint_for(block))),
        face_layout(t) is Particle ==> face_textures_spec(block, t) == Some(
            uniform_names(tex(t, "particle"@)->0, tint_for(block)),
        ),
        face_layout(t) is EndSide ==> {
            let end = tex(t, "end"@)->0;
            let side = tex(t, "side"@)->0;
            face_textures_spec(block, t) == Some(names_of(end, end, side, side, side, side, None, Tint::Untinted))
        },
        face_layout(t) is TopSide ==> {
            let top = tex(t, "top"@)->0;
            let side = tex(t, "side"@)->0;
            face_textures_spec(block, t) == Some(
                names_of(top, or_else(tex(t, "bottom"@), top), side, side, side, side, None, tint_for(block)),
            )
        },
        face_layout(t) is FrontSide ==> {
            let front = tex(t, "front"@)->0;
            let side = tex(t, "side"@)->0;
            face_textures_spec(block, t) == Some(
                names_of(side, or_else(tex(t, "bottom"@), side), front, side, side, side, None, Tint::Untinted),
            )
        },
{
}

/// When the six face variables all name block textures, each face takes the
/// texture its own variable names (`up` the top, `down` the bottom), in the
/// block's biome tint; the grass block alone gets its side overlay.
pub proof fn lemma_six_faces(block: Seq<char>, t: Seq<(Seq<char>, Seq<char>)>)
    requires
        six_faces(t),
    ensures
        face_textures_spec(block, t) matches Some(ft) && {
            &&& ft.top == tex(t, "up"@)->0
            &&& ft.bottom == tex(t, "down"@)->0
            &&& ft.north == tex(t, "north"@)->0
            &&& ft.south == tex(t, "south"@)->0
            &&& ft.east == tex(t, "east"@)->0
            &&& ft.west == tex(t, "west"@)->0
            &&& ft.tint == tint_for(block)
            &&& ft.side_overlay == (if block == "grass_block"@ { Some("grass_block_side_overlay"@) } else { None })
        },
{
}

/// The faces of a block are coloured with the block's biome tint in every
/// layout but the `end`/`side` and `front`/`side` layouts, which are untinted.
pub proof fn lemma_face_tint(block: Seq<char>, t: Seq<(Seq<char>, Seq<char>)>)
    ensures
        face_textures_spec(block, t) matches Some(ft) ==> ft.tint == (if untinted_layout(t) {
            Tint::Untinted
        } else {
            tint_for(block)
        }),
{
}

/// The block texture name the variable `key` of `textures` points at.
fn texture_name<'a>(textures: &'a Vec<(String, String)>, key: &str) -> (r: Option<&'a str>)
    ensures
        opt_str_view(r) == tex(keyed_view(textures@), key@),
{
    match get_value(textures, key) {
        Some(v) => texture_to_name(v.as_str()),
        None => None,
    }
}

/// An optional face textures value by its names.
pub open spec fn opt_faces_view(o: Option<FaceTextures>) -> Option<FaceNames> {
    match o {
        Some(f) => Some(f@),
        None => None,
    }
}

/// The face textures of block `block_name` from its resolved texture
/// variables, or `None` where no known layout fits.
pub fn build_face_textures(block_name: &str, textures: &Vec<(String, String)>) -> (r: Option<FaceTextures>)
    ensures
        opt_faces_view(r) == face_textures_spec(block_name@, keyed_view(textures@)),
        six_faces(keyed_view(textures@)) ==> (r matches Some(f) && {
            &&& f@.top == tex(keyed_view(textures@), "up"@)->0
            &&& f@.bottom == tex(keyed_view(textures@), "down"@)->0
            &&& f@.north == tex(keyed_view(textures@), "north"@)->0
            &&& f@.south == tex(keyed_view(textures@), "south"@)->0
            &&& f@.east == tex(keyed_view(textures@), "east"@)->0
            &&& f@.west == tex(keyed_view(textures@), "west"@)->0
        }),
        (r is None) == (face_layout(keyed_view(textures@)) is Unknown),
        r matches Some(f) ==> f@.tint == (if untinted_layout(keyed_view(textures@)) {
            Tint::Untinted
        } else {
            tint_for(block_name@)
        }),
{
    proof {
        let t = keyed_view(textures@);
        if six_faces(t) {
            lemma_six_faces(block_name@, t);
        }
        lemma_face_tint(block_name@, t);
        lemma_face_layouts(block_name@, t);
    }
    let up = texture_name(textures, "up");
    let down = texture_name(textures, "down");
    let north = texture_name(textures, "north");
    let south = texture_name(textures, "south");
    let east = texture_name(textures, "east");
    let west = texture_name(textures, "west");
    let tint = determine_tint(block_name);
    if let (Some(up), Some(down), Some(north), Some(south), Some(east), Some(west)) = (
        up,
        down,
        north,
        south,
        east,
        west,
    ) {
        let (side_overlay, tint) = if str_eq(block_name, "grass_block") {
            (Some("grass_block_side_overlay"), Tint::Grass)
        } else {
            (None, tint)
        };
        return Some(FaceTextures::new(up, down, north, south, east, west, side_overlay, tint));
    }
    if let Some(all) = texture_name(textures, "all") {
        return Some(FaceTextures::uniform(all, tint));
    }
    if let (Some(end), Some(side)) = (texture_name(textures, "end"), texture_name(textures, "side")) {
        return Some(FaceTextures::new(end, end, side, side, side, side, None, Tint::Untinted));
    }
    if let (Some(top), Some(side)) = (texture_name(textures, "top"), texture_name(textures, "side")) {
        let bottom = match texture_name(textures, "bottom") {
            Some(b) => b,
            None => top,
        };
        return Some(FaceTextures::new(top, bottom, side, side, side, side, None, tint));
    }
    if let Some(cross) = texture_name(textures, "cross") {
        return Some(FaceTextures::uniform(cross, tint));
    }
    if let (Some(front), Some(side)) = (texture_name(textures, "front"), texture_name(textures, "side")) {
        let top = match texture_name(textures, "top") {
            Some(t) => t,
            None => match texture_name(textures, "end") {
                Some(e) => e,
                None => side,
            },
        };
        let bottom = match texture_name(textures, "bottom") {
            Some(b) => b,
            None => top,
        };
        return Some(FaceTextures::new(top, bottom, front, side, side, side, None, Tint::Untinted));
    }
    if let Some(p) = texture_name(textures, "particle") {
        return Some(FaceTextures::uniform(p, tint));
    }
    None
}

} // verus!
