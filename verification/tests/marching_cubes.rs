use mesh::marching_cubes::refine::{
    self, CellPos, CellSample, Fate,
};
use mesh::marching_cubes::table;

fn above_of(index: u8) -> [bool; 8] {
    let mut a = [false; 8];
    for (c, slot) in a.iter_mut().enumerate() {
        *slot = (index >> c) & 1 == 1;
    }
    a
}

// ── The pattern of a cell ─────────────────────────────────────────────────────

#[test]
fn cube_index_sums_corner_bits() {
    assert_eq!(table::cube_index(&[false; 8]), 0);
    assert_eq!(table::cube_index(&[true; 8]), 255);
    let mut a = [false; 8];
    a[0] = true;
    a[3] = true;
    a[7] = true;
    assert_eq!(table::cube_index(&a), 1 + 8 + 128);
}

#[test]
fn cube_index_round_trips_every_pattern() {
    for index in 0..=255u8 {
        assert_eq!(table::cube_index(&above_of(index)), index);
    }
}

#[test]
fn corner_offsets_are_the_corner_bits() {
    assert_eq!(table::corner_offset(0), [0, 0, 0]);
    assert_eq!(table::corner_offset(1), [1, 0, 0]);
    assert_eq!(table::corner_offset(6), [0, 1, 1]);
    assert_eq!(table::corner_offset(7), [1, 1, 1]);
}

#[test]
fn edge_corners_follow_the_cube() {
    assert_eq!(table::edge_corners(0), (0, 1));
    assert_eq!(table::edge_corners(2), (3, 2));
    assert_eq!(table::edge_corners(8), (0, 4));
    assert_eq!(table::edge_corners(11), (2, 6));
}

// ── The triangle table ────────────────────────────────────────────────────────

#[test]
fn no_triangles_when_all_corners_on_one_side() {
    assert!(table::cell_triangles(0).is_empty());
    assert!(table::cell_triangles(255).is_empty());
}

#[test]
fn single_corner_gives_one_triangle() {
    assert_eq!(table::cell_triangles(1), vec![[0, 3, 8]]);
    assert_eq!(table::cell_triangles(2), vec![[0, 9, 1]]);
}

#[test]
fn two_adjacent_corners_give_two_triangles() {
    assert_eq!(table::cell_triangles(3), vec![[3, 8, 1], [1, 8, 9]]);
}

#[test]
fn every_triangle_edge_changes_sign() {
    for index in 0..=255u8 {
        let above = above_of(index);
        for tri in table::cell_triangles(index) {
            for e in tri {
                let (a, b) = table::edge_corners(e);
                assert_ne!(above[a as usize], above[b as usize], "pattern {index}, edge {e}");
            }
        }
    }
}

#[test]
fn every_sign_change_carries_a_vertex() {
    for index in 0..=255u8 {
        let above = above_of(index);
        let tris = table::cell_triangles(index);
        for e in 0..12u8 {
            let (a, b) = table::edge_corners(e);
            if above[a as usize] != above[b as usize] {
                assert!(tris.iter().any(|t| t.contains(&e)), "pattern {index}, edge {e}");
            }
        }
    }
}

#[test]
fn only_uniform_patterns_are_empty() {
    for index in 1..=254u8 {
        assert!(!table::cell_triangles(index).is_empty(), "pattern {index}");
    }
}

// ── Sampling and refining ────────────────────────────────────────────────────

fn sample(values: [f32; 8], threshold: f32) -> CellSample {
    CellSample {
        below: values.map(|c| c <= 0.0),
        above: values.map(|c| c > 0.0),
        close: values.map(|c| c.abs() < threshold),
    }
}

#[test]
fn straddling_needs_both_sides() {
    let mixed = sample([-1.0, 1.0, 1.0, 1.0, 1.0, 1.0, 1.0, 1.0], 0.1);
    let inside = sample([-1.0; 8], 0.1);
    let zero = sample([0.0, 1.0, 1.0, 1.0, 1.0, 1.0, 1.0, 1.0], 0.1);
    assert!(refine::straddles(&mixed));
    assert!(!refine::straddles(&inside));
    assert!(refine::straddles(&zero), "zero counts as inside");
}

#[test]
fn near_surface_catches_thin_features() {
    let far = sample([5.0; 8], 1.0);
    let close = sample([0.5; 8], 1.0);
    assert!(!refine::near_surface(&far));
    assert!(refine::near_surface(&close));
}

#[test]
fn fates_of_cells() {
    let mixed = sample([-1.0, 1.0, 1.0, 1.0, 1.0, 1.0, 1.0, 1.0], 0.1);
    let close = sample([0.5; 8], 1.0);
    let far = sample([5.0; 8], 1.0);
    assert_eq!(refine::cell_fate(&far, 2, 5), Fate::Discard);
    assert_eq!(refine::cell_fate(&mixed, 2, 5), Fate::Subdivide);
    assert_eq!(refine::cell_fate(&close, 2, 5), Fate::Subdivide);
    assert_eq!(refine::cell_fate(&mixed, 5, 5), Fate::Keep);
    assert_eq!(refine::cell_fate(&close, 5, 5), Fate::Discard);
}

#[test]
fn first_level_is_the_root_octants() {
    let level = refine::first_level();
    assert_eq!(level.len(), 8);
    for (i, c) in level.iter().enumerate() {
        assert_eq!(c.depth, 1);
        assert_eq!(c.pos, [(i & 1) as u16, ((i >> 1) & 1) as u16, ((i >> 2) & 1) as u16]);
    }
}

#[test]
fn child_doubles_coordinates() {
    let c = CellPos { pos: [3, 5, 7], depth: 3 };
    let k = refine::child(&c, 6);
    assert_eq!(k.depth, 4);
    assert_eq!(k.pos, [6, 11, 15]);
}

#[test]
fn refine_level_splits_and_keeps() {
    let cells = vec![
        CellPos { pos: [0, 0, 0], depth: 1 },
        CellPos { pos: [1, 0, 0], depth: 1 },
        CellPos { pos: [0, 1, 0], depth: 1 },
    ];
    let mixed = sample([-1.0, 1.0, 1.0, 1.0, 1.0, 1.0, 1.0, 1.0], 0.1);
    let far = sample([5.0; 8], 1.0);
    let samples = vec![far, mixed, far];
    let (next, kept) = refine::refine_level(&cells, &samples, 4);
    assert!(kept.is_empty());
    assert_eq!(next.len(), 8);
    assert!(next.iter().all(|c| c.depth == 2));
    assert_eq!(next[0].pos, [2, 0, 0]);
    assert_eq!(next[7].pos, [3, 1, 1]);

    let (next, kept) = refine::refine_level(&cells, &samples, 1);
    assert!(next.is_empty(), "the limit ends the search");
    assert_eq!(kept, vec![1]);
}

#[test]
fn refine_empty_level() {
    let (next, kept) = refine::refine_level(&Vec::new(), &Vec::new(), 3);
    assert!(next.is_empty());
    assert!(kept.is_empty());
}

#[test]
fn depth_limit_clamps() {
    assert_eq!(refine::depth_limit(0), 1);
    assert_eq!(refine::depth_limit(1), 1);
    assert_eq!(refine::depth_limit(7), 7);
    assert_eq!(refine::depth_limit(15), 15);
    assert_eq!(refine::depth_limit(200), 15);
}

#[test]
fn levels_stay_on_their_grid_without_repeats() {
    let mixed = sample([-1.0, 1.0, 1.0, 1.0, 1.0, 1.0, 1.0, 1.0], 0.1);
    let mut level = refine::first_level();
    for depth in 1..=3u8 {
        assert!(level.iter().all(|c| c.depth == depth));
        assert!(level.iter().all(|c| c.pos.iter().all(|&p| (p as u32) < (1u32 << depth))));
        let mut seen: Vec<[u16; 3]> = level.iter().map(|c| c.pos).collect();
        seen.sort();
        seen.dedup();
        assert_eq!(seen.len(), level.len(), "a cell appears twice at depth {depth}");
        let samples = vec![mixed; level.len()];
        let (next, kept) = refine::refine_level(&level, &samples, 4);
        assert!(kept.is_empty());
        assert_eq!(next.len(), 8 * level.len());
        level = next;
    }
    let samples = vec![mixed; level.len()];
    let (next, kept) = refine::refine_level(&level, &samples, 4);
    assert!(next.is_empty());
    assert_eq!(kept.len(), level.len());
}
