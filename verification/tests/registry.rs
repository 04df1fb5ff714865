use pomc::world::block::registry::{BlockRegistry, BlockTextures, FaceTextures, Tint};

#[test]
fn face_textures_new_keeps_every_field() {
    let ft = FaceTextures::new("a", "b", "c", "d", "e", "f", Some("o"), Tint::Foliage);
    assert_eq!(
        (ft.top.as_str(), ft.bottom.as_str(), ft.north.as_str(), ft.south.as_str(), ft.east.as_str(), ft.west.as_str()),
        ("a", "b", "c", "d", "e", "f")
    );
    assert_eq!(ft.side_overlay.as_deref(), Some("o"));
    assert_eq!(ft.tint, Tint::Foliage);
}

#[test]
fn face_textures_uniform_uses_one_name() {
    let ft = FaceTextures::uniform("stone", Tint::Untinted);
    for name in [&ft.top, &ft.bottom, &ft.north, &ft.south, &ft.east, &ft.west] {
        assert_eq!(name, "stone");
    }
    assert!(ft.side_overlay.is_none());
    assert_eq!(ft.tint, Tint::Untinted);
}

#[test]
fn table_insert_then_get_reads_back() {
    let mut t = BlockTextures::new();
    t.insert("stone".to_string(), FaceTextures::uniform("stone", Tint::Untinted));
    t.insert("dirt".to_string(), FaceTextures::uniform("dirt", Tint::Untinted));
    t.insert("stone".to_string(), FaceTextures::uniform("smooth_stone", Tint::Untinted));
    assert_eq!(t.len(), 2);
    assert_eq!(t.get("stone").unwrap().top, "smooth_stone");
    assert_eq!(t.get("dirt").unwrap().top, "dirt");
    assert!(t.get("sand").is_none());
    assert_eq!(t.entries()[0].0, "stone");
}

#[test]
fn insert_if_absent_keeps_existing() {
    let mut t = BlockTextures::new();
    t.insert("water".to_string(), FaceTextures::uniform("custom_water", Tint::Untinted));
    t.insert_if_absent("water".to_string(), FaceTextures::uniform("water_still", Tint::Untinted));
    assert_eq!(t.get("water").unwrap().top, "custom_water");
    assert_eq!(t.len(), 1);
}

#[test]
fn load_adds_fluid_fallbacks() {
    let mut scanned = BlockTextures::new();
    scanned.insert("stone".to_string(), FaceTextures::uniform("stone", Tint::Untinted));
    let reg = BlockRegistry::load(scanned);
    assert_eq!(reg.get_textures("water").unwrap().top, "water_still");
    assert_eq!(reg.get_textures("lava").unwrap().west, "lava_still");
    assert_eq!(reg.get_textures("stone").unwrap().top, "stone");
    assert_eq!(reg.textures().len(), 3);
}

#[test]
fn load_keeps_scanned_fluids() {
    let mut scanned = BlockTextures::new();
    scanned.insert("lava".to_string(), FaceTextures::uniform("lava_flow", Tint::Untinted));
    let reg = BlockRegistry::load(scanned);
    assert_eq!(reg.get_textures("lava").unwrap().top, "lava_flow");
    assert_eq!(reg.get_textures("water").unwrap().top, "water_still");
}

#[test]
fn from_cached_adds_nothing() {
    let mut cached = BlockTextures::new();
    cached.insert("stone".to_string(), FaceTextures::uniform("stone", Tint::Untinted));
    let reg = BlockRegistry::from_cached(cached);
    assert!(reg.get_textures("water").is_none());
    assert_eq!(reg.textures().len(), 1);
}

#[test]
fn texture_names_lists_faces_then_overlay() {
    let mut t = BlockTextures::new();
    t.insert(
        "grass_block".to_string(),
        FaceTextures::new("gt", "dirt", "gs", "gs", "gs", "gs", Some("overlay"), Tint::Grass),
    );
    t.insert("stone".to_string(), FaceTextures::uniform("stone", Tint::Untinted));
    let reg = BlockRegistry::from_cached(t);
    let names = reg.texture_names();
    assert_eq!(
        names,
        vec!["gt", "dirt", "gs", "gs", "gs", "gs", "overlay", "stone", "stone", "stone", "stone", "stone", "stone"]
    );
}

#[test]
fn get_textures_of_unknown_block_is_none() {
    let reg = BlockRegistry::load(BlockTextures::new());
    assert!(reg.get_textures("stone").is_none());
}
