//! Behavioral tests of the fractal tree generator.

use fractal_forest::Color;
use fractal_forest::FracCoord;
use fractal_forest::GrowthDirection;
use fractal_forest::RandomSource;
use fractal_forest::Tree;
use fractal_forest::TreeGenerator;

fn origin() -> FracCoord {
    FracCoord { whole: 0, diag: 0 }
}

#[test]
fn new_tree_and_forest_are_empty() {
    let t = Tree::new();
    assert_eq!(t.vertices.len(), 0);
    assert_eq!(t.indices.len(), 0);
    let f = fractal_forest::Forest::new();
    assert_eq!(f.trees.len(), 0);
}

#[test]
fn forest_size_matches_num_trees() {
    let mut g = TreeGenerator::new(2, 0, 5);
    let mut rng = RandomSource::ambient();
    let forest = g.generate_forest(&mut rng);
    assert_eq!(forest.trees.len(), 5);
}

#[test]
fn zero_trees_gives_empty_forest() {
    let mut g = TreeGenerator::new(2, 200, 0);
    let mut rng = RandomSource::ambient();
    let forest = g.generate_forest(&mut rng);
    assert_eq!(forest.trees.len(), 0);
}

#[test]
fn generator_is_reusable() {
    let mut g = TreeGenerator::new(1, 64, 3);
    let mut rng = RandomSource::ambient();
    let a = g.generate_forest(&mut rng);
    let b = g.generate_forest(&mut rng);
    assert_eq!(a.trees.len(), 3);
    assert_eq!(b.trees.len(), 3);
}

#[test]
fn single_segment_when_factor_zero() {
    let mut g = TreeGenerator::new(3, 0, 1);
    let mut rng = RandomSource::ambient();
    let forest = g.generate_forest(&mut rng);
    let tree = &forest.trees[0];
    assert_eq!(tree.vertices.len(), 2);
    assert_eq!(tree.indices, vec![0u32, 1u32]);
    // trunk at level 3 carries the branch color and spans pow2(3) units up
    assert_eq!(tree.vertices[0].color, Color::Brown);
    assert_eq!(tree.vertices[1].color, Color::Brown);
    assert_eq!(tree.vertices[0].x, origin());
    assert_eq!(tree.vertices[0].y, origin());
    assert_eq!(tree.vertices[1].x, origin());
    assert_eq!(tree.vertices[1].y, FracCoord { whole: -8, diag: 0 });
}

#[test]
fn minimal_end_to_end_example() {
    // fractal_level = 0, completeness_factor = 0, num_trees = 1:
    // one tree of exactly two green vertices at (0,0) and one unit up.
    let mut g = TreeGenerator::new(0, 0, 1);
    let mut rng = RandomSource::ambient();
    let forest = g.generate_forest(&mut rng);
    assert_eq!(forest.trees.len(), 1);
    let tree = &forest.trees[0];
    assert_eq!(tree.vertices.len(), 2);
    assert_eq!(tree.indices, vec![0u32, 1u32]);
    assert_eq!(tree.vertices[0].color, Color::Green);
    assert_eq!(tree.vertices[1].color, Color::Green);
    assert_eq!(tree.vertices[0].x, origin());
    assert_eq!(tree.vertices[0].y, origin());
    assert_eq!(tree.vertices[1].x, origin());
    assert_eq!(tree.vertices[1].y, FracCoord { whole: -1, diag: 0 });
}

#[test]
fn deterministic_with_fixed_script() {
    let script = vec![10u8, 250, 3, 99, 0, 255, 77, 128, 1, 2, 3, 4, 5, 6, 7, 8];
    let mut g = TreeGenerator::new(2, 200, 1);
    let mut rng_a = RandomSource::scripted(script.clone());
    let mut rng_b = RandomSource::scripted(script);
    let fa = g.generate_forest(&mut rng_a);
    let fb = g.generate_forest(&mut rng_b);
    assert_eq!(fa.trees[0].vertices, fb.trees[0].vertices);
    assert_eq!(fa.trees[0].indices, fb.trees[0].indices);
}

#[test]
fn full_branching_at_level_one() {
    // One draw per eligible direction — seven in all — and every draw is
    // 0 < 255, so all seven branch once.
    let mut g = TreeGenerator::new(1, 255, 1);
    let mut rng = RandomSource::scripted(vec![0u8; 7]);
    let forest = g.generate_forest(&mut rng);
    let tree = &forest.trees[0];
    assert_eq!(tree.vertices.len(), 16);
    let expected_indices: Vec<u32> = (0..16).collect();
    assert_eq!(tree.indices, expected_indices);
    // trunk: level 1, brown, from the origin one double unit up
    assert_eq!(tree.vertices[0].color, Color::Brown);
    assert_eq!(tree.vertices[1].color, Color::Brown);
    assert_eq!(tree.vertices[1].y, FracCoord { whole: -2, diag: 0 });
    // every other vertex is a leaf
    for v in &tree.vertices[2..] {
        assert_eq!(v.color, Color::Green);
    }
    // first sub-branch grows Left from the trunk's end
    assert_eq!(tree.vertices[2].x, origin());
    assert_eq!(tree.vertices[2].y, FracCoord { whole: -2, diag: 0 });
    assert_eq!(tree.vertices[3].x, FracCoord { whole: -1, diag: 0 });
    assert_eq!(tree.vertices[3].y, FracCoord { whole: -2, diag: 0 });
    // second sub-branch grows UpperLeft: one diagonal half-unit on each axis
    assert_eq!(tree.vertices[5].x, FracCoord { whole: 0, diag: -1 });
    assert_eq!(tree.vertices[5].y, FracCoord { whole: -2, diag: -1 });
}

#[test]
fn draws_are_consumed_in_direction_order() {
    // One draw per eligible candidate, in direction order; the excluded
    // incoming direction (index 2, Up) consumes nothing. The six script
    // bytes cover candidates 0, 1, 3, 4, 5, 6; the last candidate reads a
    // padded 0. Threshold 128: draws 127, 5, 0 and the padded 0 recurse;
    // 128, 200, 255 do not.
    let script = vec![127u8, 128, 5, 200, 0, 255];
    let mut g = TreeGenerator::new(1, 128, 1);
    let mut rng = RandomSource::scripted(script);
    let forest = g.generate_forest(&mut rng);
    let tree = &forest.trees[0];
    // trunk + sub-branches Left, UpperRight, LowerRight, LowerLeft
    assert_eq!(tree.vertices.len(), 10);
    let expected_indices: Vec<u32> = (0..10).collect();
    assert_eq!(tree.indices, expected_indices);
    let trunk_end_y = FracCoord { whole: -2, diag: 0 };
    // Left leaf
    assert_eq!(tree.vertices[3].x, FracCoord { whole: -1, diag: 0 });
    assert_eq!(tree.vertices[3].y, trunk_end_y);
    // UpperRight leaf
    assert_eq!(tree.vertices[5].x, FracCoord { whole: 0, diag: 1 });
    assert_eq!(tree.vertices[5].y, FracCoord { whole: -2, diag: -1 });
    // LowerRight leaf
    assert_eq!(tree.vertices[7].x, FracCoord { whole: 0, diag: 1 });
    assert_eq!(tree.vertices[7].y, FracCoord { whole: -2, diag: 1 });
    // LowerLeft leaf
    assert_eq!(tree.vertices[9].x, FracCoord { whole: 0, diag: -1 });
    assert_eq!(tree.vertices[9].y, FracCoord { whole: -2, diag: 1 });
}

#[test]
fn scripted_source_replays_then_pads_with_zero() {
    let mut rng = RandomSource::scripted(vec![3, 4]);
    assert_eq!(rng.next_u8(), 3);
    assert_eq!(rng.next_u8(), 4);
    assert_eq!(rng.next_u8(), 0);
    assert_eq!(rng.next_u8(), 0);
}

#[test]
fn generate_tree_appends_from_given_start() {
    let mut tree = Tree::new();
    let mut rng = RandomSource::scripted(vec![]);
    let start_x = FracCoord { whole: 5, diag: 0 };
    let start_y = FracCoord { whole: -3, diag: 2 };
    TreeGenerator::generate_tree(&mut tree, 0, start_x, start_y, 0, GrowthDirection::Right, &mut rng);
    assert_eq!(tree.vertices.len(), 2);
    assert_eq!(tree.indices, vec![0u32, 1u32]);
    assert_eq!(tree.vertices[0].x, start_x);
    assert_eq!(tree.vertices[0].y, start_y);
    assert_eq!(tree.vertices[1].x, FracCoord { whole: 6, diag: 0 });
    assert_eq!(tree.vertices[1].y, start_y);
    assert_eq!(tree.vertices[0].color, Color::Green);
}

#[test]
fn ambient_trees_keep_structural_invariants() {
    let mut g = TreeGenerator::new(4, 128, 3);
    let mut rng = RandomSource::ambient();
    let forest = g.generate_forest(&mut rng);
    assert_eq!(forest.trees.len(), 3);
    for tree in &forest.trees {
        assert_eq!(tree.vertices.len(), tree.indices.len());
        assert!(tree.vertices.len() >= 2);
        assert_eq!(tree.vertices.len() % 2, 0);
        for (k, ix) in tree.indices.iter().enumerate() {
            assert_eq!(*ix as usize, k);
        }
        // the trunk starts at the origin and is brown at level 4
        assert_eq!(tree.vertices[0].x, FracCoord { whole: 0, diag: 0 });
        assert_eq!(tree.vertices[0].y, FracCoord { whole: 0, diag: 0 });
        assert_eq!(tree.vertices[0].color, Color::Brown);
        assert_eq!(tree.vertices[1].color, Color::Brown);
    }
}
