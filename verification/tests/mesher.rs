use pomc::renderer::chunk::mesher::{
    exposed_faces, face_indices, face_offset, face_texture, neighbor_position, push_face_indices, texture_tint,
};
use pomc::world::block::registry::{FaceTextures, Tint};

#[test]
fn face_texture_picks_each_face() {
    let ft = FaceTextures::new("t", "b", "n", "s", "e", "w", None, Tint::Untinted);
    assert_eq!(face_texture(&ft, 0), "t");
    assert_eq!(face_texture(&ft, 1), "b");
    assert_eq!(face_texture(&ft, 2), "n");
    assert_eq!(face_texture(&ft, 3), "s");
    assert_eq!(face_texture(&ft, 4), "e");
    assert_eq!(face_texture(&ft, 5), "w");
    assert_eq!(face_texture(&ft, 9), "w");
}

#[test]
fn texture_tint_colours_grass_only() {
    assert_eq!(texture_tint("grass_block_top"), Tint::Grass);
    assert_eq!(texture_tint("grass_block_side"), Tint::Grass);
    assert_eq!(texture_tint("grass_block_bottom"), Tint::Untinted);
    assert_eq!(texture_tint("oak_leaves"), Tint::Untinted);
}

#[test]
fn face_offsets_point_to_neighbours() {
    assert_eq!(face_offset(0), (0, 1, 0));
    assert_eq!(face_offset(1), (0, -1, 0));
    assert_eq!(face_offset(2), (0, 0, -1));
    assert_eq!(face_offset(3), (0, 0, 1));
    assert_eq!(face_offset(4), (1, 0, 0));
    assert_eq!(face_offset(5), (-1, 0, 0));
    assert_eq!(neighbor_position(10, -64, 3, 1), (10, -65, 3));
}

#[test]
fn face_indices_form_two_triangles() {
    assert_eq!(face_indices(0), [0, 1, 2, 2, 3, 0]);
    assert_eq!(face_indices(40), [40, 41, 42, 42, 43, 40]);
}

#[test]
fn exposed_faces_lists_faces_next_to_air() {
    assert_eq!(exposed_faces(&[true, false, false, true, false, true]), vec![0, 3, 5]);
    assert!(exposed_faces(&[false; 6]).is_empty());
    assert_eq!(exposed_faces(&[true; 6]), vec![0, 1, 2, 3, 4, 5]);
}

#[test]
fn quads_pushed_in_turn_index_their_own_vertices() {
    let mut indices = Vec::new();
    for q in 0..3u32 {
        push_face_indices(&mut indices, 4 * q);
    }
    assert_eq!(indices, vec![0, 1, 2, 2, 3, 0, 4, 5, 6, 6, 7, 4, 8, 9, 10, 10, 11, 8]);
}

use pomc::renderer::chunk::mesher::{mesh_chunk, ChunkBlocks};
use pomc::world::block::registry::{BlockRegistry, BlockTextures};

fn grid(height: usize, solid: &[(i32, i32, i32, &str)]) -> ChunkBlocks {
    let mut cells: Vec<Option<String>> = vec![None; 18 * 18 * (height + 2)];
    for (x, y, z, id) in solid {
        let idx = (((z + 1) as usize * (height + 2)) + (y + 1) as usize) * 18 + (x + 1) as usize;
        cells[idx] = Some(id.to_string());
    }
    ChunkBlocks::new(height, cells).unwrap()
}

fn registry() -> BlockRegistry {
    let mut t = BlockTextures::new();
    t.insert("stone".to_string(), FaceTextures::new("t", "b", "n", "s", "e", "w", None, Tint::Untinted));
    t.insert(
        "grass_block".to_string(),
        FaceTextures::new("grass_block_top", "dirt", "grass_block_side", "grass_block_side", "grass_block_side", "grass_block_side", None, Tint::Grass),
    );
    BlockRegistry::from_cached(t)
}

#[test]
fn chunk_blocks_new_checks_the_cell_count() {
    assert!(ChunkBlocks::new(1, vec![None; 18 * 18 * 3]).is_some());
    assert!(ChunkBlocks::new(1, vec![None; 18 * 18 * 3 - 1]).is_none());
}

#[test]
fn lone_block_shows_all_six_faces() {
    let quads = mesh_chunk(&grid(1, &[(3, 0, 5, "stone")]), &registry());
    let faces: Vec<(usize, usize, usize, usize, &str)> =
        quads.iter().map(|q| (q.x, q.y, q.z, q.face, q.texture.as_str())).collect();
    assert_eq!(
        faces,
        vec![(3, 0, 5, 0, "t"), (3, 0, 5, 1, "b"), (3, 0, 5, 2, "n"), (3, 0, 5, 3, "s"), (3, 0, 5, 4, "e"), (3, 0, 5, 5, "w")]
    );
}

#[test]
fn touching_faces_are_hidden() {
    // two stacked blocks and a neighbour outside the chunk to the west
    let quads = mesh_chunk(&grid(2, &[(0, 0, 0, "stone"), (0, 1, 0, "stone"), (-1, 0, 0, "stone")]), &registry());
    assert_eq!(quads.len(), 9);
    assert!(!quads.iter().any(|q| q.y == 0 && q.face == 0));
    assert!(!quads.iter().any(|q| q.y == 1 && q.face == 1));
    assert!(!quads.iter().any(|q| q.y == 0 && q.face == 5));
    assert!(quads.iter().any(|q| q.y == 1 && q.face == 5));
}

#[test]
fn unknown_blocks_and_tints() {
    let quads = mesh_chunk(&grid(1, &[(1, 0, 1, "mystery"), (7, 0, 7, "grass_block")]), &registry());
    assert_eq!(quads.len(), 6);
    assert_eq!(quads[0].tint, Tint::Grass);
    assert_eq!(quads[1].texture, "dirt");
    assert_eq!(quads[1].tint, Tint::Untinted);
    assert_eq!(quads[2].tint, Tint::Grass);
}
