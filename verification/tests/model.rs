use pomc::world::block::model::{
    build_face_textures, determine_tint, extract_default_model, first_model_ref, first_multipart_model,
    model_id_to_asset_key, resolve_ref, texture_to_name, BlockstateFile, ModelFile, ModelRef, MultipartApply,
    MultipartCase, TextureChain, VariantEntry,
};
use pomc::world::block::registry::Tint;

fn mref(m: &str) -> ModelRef {
    ModelRef { model: m.to_string() }
}

fn pairs(kv: &[(&str, &str)]) -> Vec<(String, String)> {
    kv.iter().map(|(k, v)| (k.to_string(), v.to_string())).collect()
}

#[test]
fn first_model_ref_takes_the_first() {
    assert_eq!(first_model_ref(&VariantEntry::Single(mref("a"))), Some("a".to_string()));
    assert_eq!(first_model_ref(&VariantEntry::Array(vec![mref("b"), mref("c")])), Some("b".to_string()));
    assert_eq!(first_model_ref(&VariantEntry::Array(vec![])), None);
    assert_eq!(first_multipart_model(&MultipartApply::Array(vec![mref("d")])), Some("d".to_string()));
    assert_eq!(first_multipart_model(&MultipartApply::Single(mref("e"))), Some("e".to_string()));
    assert_eq!(first_multipart_model(&MultipartApply::Array(vec![])), None);
}

#[test]
fn default_model_prefers_the_empty_variant() {
    let b = BlockstateFile {
        variants: Some(vec![
            ("axis=x".to_string(), VariantEntry::Single(mref("minecraft:block/log_x"))),
            ("".to_string(), VariantEntry::Single(mref("minecraft:block/stone"))),
        ]),
        multipart: None,
    };
    assert_eq!(extract_default_model(&b), Some("minecraft:block/stone".to_string()));
}

#[test]
fn default_model_falls_back_to_first_variant() {
    let b = BlockstateFile {
        variants: Some(vec![
            ("axis=y".to_string(), VariantEntry::Array(vec![mref("m1"), mref("m2")])),
            ("axis=x".to_string(), VariantEntry::Single(mref("m3"))),
        ]),
        multipart: None,
    };
    assert_eq!(extract_default_model(&b), Some("m1".to_string()));
}

#[test]
fn default_model_from_multipart_and_none() {
    let b = BlockstateFile {
        variants: None,
        multipart: Some(vec![MultipartCase { apply: MultipartApply::Single(mref("fence_post")) }]),
    };
    assert_eq!(extract_default_model(&b), Some("fence_post".to_string()));
    let empty = BlockstateFile { variants: Some(vec![]), multipart: None };
    assert_eq!(extract_default_model(&empty), None);
    let nothing = BlockstateFile { variants: None, multipart: Some(vec![]) };
    assert_eq!(extract_default_model(&nothing), None);
}

#[test]
fn texture_to_name_strips_namespace_and_folder() {
    assert_eq!(texture_to_name("minecraft:block/stone"), Some("stone"));
    assert_eq!(texture_to_name("block/dirt"), Some("dirt"));
    assert_eq!(texture_to_name("minecraft:item/apple"), None);
    assert_eq!(texture_to_name("#side"), None);
}

#[test]
fn model_id_to_asset_key_formats_the_path() {
    assert_eq!(model_id_to_asset_key("minecraft:block/stone"), "minecraft/models/block/stone.json");
    assert_eq!(model_id_to_asset_key("block/cube_all"), "minecraft/models/block/cube_all.json");
}

#[test]
fn determine_tint_by_name() {
    assert_eq!(determine_tint("grass_block"), Tint::Grass);
    assert_eq!(determine_tint("fern"), Tint::Grass);
    assert_eq!(determine_tint("oak_leaves"), Tint::Foliage);
    assert_eq!(determine_tint("cherry_leaves"), Tint::Foliage);
    assert_eq!(determine_tint("stone"), Tint::Untinted);
}

#[test]
fn resolve_ref_follows_references() {
    let map = pairs(&[("all", "#texture"), ("texture", "minecraft:block/stone"), ("loop", "#loop")]);
    assert_eq!(resolve_ref("#all", &map, 0), "minecraft:block/stone");
    assert_eq!(resolve_ref("plain", &map, 0), "plain");
    assert_eq!(resolve_ref("#missing", &map, 0), "#missing");
    assert_eq!(resolve_ref("#loop", &map, 0), "#loop");
    assert_eq!(resolve_ref("#all", &map, 11), "#all");
}

#[test]
fn texture_chain_child_wins_over_parent() {
    let mut chain = TextureChain::start("minecraft:block/oak_log");
    assert_eq!(chain.pending(), Some("minecraft:block/oak_log"));
    let child = ModelFile {
        parent: Some("minecraft:block/cube_column".to_string()),
        textures: pairs(&[("end", "minecraft:block/oak_log_top"), ("side", "minecraft:block/oak_log")]),
    };
    chain.visit(Some(&child));
    assert_eq!(chain.pending(), Some("minecraft:block/cube_column"));
    let parent = ModelFile {
        parent: None,
        textures: pairs(&[("particle", "#side"), ("side", "minecraft:block/other")]),
    };
    chain.visit(Some(&parent));
    assert_eq!(chain.pending(), None);
    let resolved = chain.resolve_textures();
    let get = |k: &str| resolved.iter().find(|(key, _)| key == k).map(|(_, v)| v.clone());
    assert_eq!(get("side"), Some("minecraft:block/oak_log".to_string()));
    assert_eq!(get("particle"), Some("minecraft:block/oak_log".to_string()));
    assert_eq!(get("end"), Some("minecraft:block/oak_log_top".to_string()));
    assert_eq!(resolved.len(), 3);
}

#[test]
fn texture_chain_stops_when_a_model_is_missing() {
    let mut chain = TextureChain::start("a");
    chain.visit(None);
    assert_eq!(chain.pending(), None);
    assert!(chain.resolve_textures().is_empty());
}

#[test]
fn texture_chain_stops_after_twenty_models() {
    let mut chain = TextureChain::start("m0");
    for i in 0..20 {
        assert!(chain.pending().is_some());
        let m = ModelFile { parent: Some(format!("m{}", i + 1)), textures: pairs(&[]) };
        chain.visit(Some(&m));
    }
    assert_eq!(chain.pending(), None);
}

#[test]
fn build_face_textures_six_faces() {
    let t = pairs(&[
        ("up", "minecraft:block/grass_block_top"),
        ("down", "minecraft:block/dirt"),
        ("north", "minecraft:block/grass_block_side"),
        ("south", "minecraft:block/grass_block_side"),
        ("east", "minecraft:block/grass_block_side"),
        ("west", "minecraft:block/grass_block_side"),
    ]);
    let ft = build_face_textures("grass_block", &t).unwrap();
    assert_eq!(ft.top, "grass_block_top");
    assert_eq!(ft.bottom, "dirt");
    assert_eq!(ft.side_overlay.as_deref(), Some("grass_block_side_overlay"));
    assert_eq!(ft.tint, Tint::Grass);
    let other = build_face_textures("mycelium", &t).unwrap();
    assert!(other.side_overlay.is_none());
    assert_eq!(other.tint, Tint::Untinted);
}

#[test]
fn build_face_textures_all_and_cross_and_particle() {
    let ft = build_face_textures("oak_leaves", &pairs(&[("all", "minecraft:block/oak_leaves")])).unwrap();
    assert_eq!(ft.north, "oak_leaves");
    assert_eq!(ft.tint, Tint::Foliage);
    let cross = build_face_textures("fern", &pairs(&[("cross", "block/fern")])).unwrap();
    assert_eq!(cross.east, "fern");
    assert_eq!(cross.tint, Tint::Grass);
    let p = build_face_textures("chest", &pairs(&[("particle", "minecraft:block/oak_planks")])).unwrap();
    assert_eq!(p.top, "oak_planks");
}

#[test]
fn build_face_textures_column_layouts() {
    let log = build_face_textures(
        "oak_log",
        &pairs(&[("end", "minecraft:block/oak_log_top"), ("side", "minecraft:block/oak_log")]),
    )
    .unwrap();
    assert_eq!((log.top.as_str(), log.bottom.as_str(), log.north.as_str()), ("oak_log_top", "oak_log_top", "oak_log"));
    assert_eq!(log.tint, Tint::Untinted);
    let sandstone = build_face_textures(
        "sandstone",
        &pairs(&[("top", "block/sandstone_top"), ("side", "block/sandstone"), ("bottom", "block/sandstone_bottom")]),
    )
    .unwrap();
    assert_eq!(sandstone.bottom, "sandstone_bottom");
    let no_bottom = build_face_textures("x", &pairs(&[("top", "block/t"), ("side", "block/s")])).unwrap();
    assert_eq!(no_bottom.bottom, "t");
}

#[test]
fn build_face_textures_front_layout() {
    let furnace = build_face_textures(
        "furnace",
        &pairs(&[("front", "block/furnace_front"), ("side", "block/furnace_side")]),
    )
    .unwrap();
    assert_eq!(furnace.north, "furnace_front");
    assert_eq!(furnace.south, "furnace_side");
    assert_eq!(furnace.top, "furnace_side");
    assert_eq!(furnace.bottom, "furnace_side");
    assert_eq!(furnace.tint, Tint::Untinted);
}

#[test]
fn build_face_textures_nothing_usable() {
    assert!(build_face_textures("air", &pairs(&[])).is_none());
    assert!(build_face_textures("item", &pairs(&[("all", "minecraft:item/apple")])).is_none());
}
