//! Structural laws of the generator, proved once and for all over the
//! relational model: they hold of every generated tree, whichever source
//! supplied the random draws.

use vstd::prelude::*;
use vstd::arithmetic::power2::pow2;
use vstd::arithmetic::power2::lemma_pow2_adds;
use crate::direction::GrowthDirection;
use crate::direction::delta_len_sq_x2;
use crate::direction::dir_at;
use crate::direction::step_delta;
use crate::geometry::Color;
use crate::geometry::FracCoord;
use crate::geometry::GVertex;
use crate::geometry::Vertex;
use crate::geometry::color_for;
use crate::geometry::vertex_matches;
use crate::geometry::verts_match;
use crate::generator::branches_upto;
use crate::generator::gen_any;
use crate::generator::generated_tree;
use crate::generator::piece_ok;
use crate::generator::seg_gverts;
use crate::tree::Forest;
use crate::tree::Tree;

verus! {

/// Every vertex of an outcome was produced no deeper than the starting level,
/// carries the color of its own level, and outcomes pair up evenly.
proof fn lemma_gen_any_shape(
    level: nat,
    xw: int,
    xd: int,
    yw: int,
    yd: int,
    cf: u8,
    d: GrowthDirection,
    gs: Seq<GVertex>,
)
    requires
        gen_any(level, xw, xd, yw, yd, cf, d, gs),
    ensures
        gs.len() % 2 == 0,
        forall|k: int|
            0 <= k < gs.len() ==> (#[trigger] gs[k]).level <= level && gs[k].color == color_for(
                gs[k].level,
            ),
    decreases level, 9int,
{
    let seg = seg_gverts(level, xw, xd, yw, yd, d);
    let dl = step_delta(d, level);
    assert(gs[0] == gs.take(2)[0]);
    assert(gs[1] == gs.take(2)[1]);
    if level == 0 {
        assert(gs.len() == 2);
    } else {
        let b = gs.skip(2);
        lemma_branches_shape(
            level,
            xw + dl.xw,
            xd + dl.xd,
            yw + dl.yw,
            yd + dl.yd,
            cf,
            d,
            8,
            b,
        );
        assert forall|k: int| 0 <= k < gs.len() implies (#[trigger] gs[k]).level <= level
            && gs[k].color == color_for(gs[k].level) by {
            if k >= 2 {
                assert(gs[k] == b[k - 2]);
            }
        }
    }
}

/// Same statement for the pieces the branching loop produced so far: each
/// vertex comes from a level strictly below the node's.
proof fn lemma_branches_shape(
    level: nat,
    exw: int,
    exd: int,
    eyw: int,
    eyd: int,
    cf: u8,
    d: GrowthDirection,
    i: int,
    b: Seq<GVertex>,
)
    requires
        level >= 1,
        branches_upto(level, exw, exd, eyw, eyd, cf, d, i, b),
    ensures
        b.len() % 2 == 0,
        forall|k: int|
            0 <= k < b.len() ==> (#[trigger] b[k]).level < level && b[k].color == color_for(
                b[k].level,
            ),
    decreases level, i,
{
    if i <= 0 {
    } else {
        let (b0, c) = choose|b0: Seq<GVertex>, c: Seq<GVertex>|
            {
                &&& b == #[trigger] (b0 + c)
                &&& branches_upto(level, exw, exd, eyw, eyd, cf, d, i - 1, b0)
                &&& piece_ok(level, exw, exd, eyw, eyd, cf, d, i - 1, c)
            };
        lemma_branches_shape(level, exw, exd, eyw, eyd, cf, d, i - 1, b0);
        if c.len() > 0 {
            lemma_gen_any_shape((level - 1) as nat, exw, exd, eyw, eyd, cf, dir_at(i - 1), c);
        }
        assert forall|k: int| 0 <= k < b.len() implies (#[trigger] b[k]).level < level
            && b[k].color == color_for(b[k].level) by {
            if k < b0.len() {
                assert(b[k] == b0[k]);
            } else {
                assert(b[k] == c[k - b0.len()]);
            }
        }
    }
}

/// Depth bound: no vertex of any possible outcome of a generation call at
/// `level` belongs to a branch deeper than `level` — every recursive call
/// chain has length at most `level + 1`.
pub proof fn lemma_depth_bound(
    level: nat,
    xw: int,
    xd: int,
    yw: int,
    yd: int,
    cf: u8,
    d: GrowthDirection,
    gs: Seq<GVertex>,
)
    requires
        gen_any(level, xw, xd, yw, yd, cf, d, gs),
    ensures
        forall|k: int| 0 <= k < gs.len() ==> (#[trigger] gs[k]).level <= level,
{
    lemma_gen_any_shape(level, xw, xd, yw, yd, cf, d, gs);
}

/// Leaf coloring: in every possible outcome, a vertex carries the leaf color
/// (green) exactly when it was produced at recursion level 0, and the branch
/// color (brown) otherwise.
pub proof fn lemma_leaf_coloring(
    level: nat,
    xw: int,
    xd: int,
    yw: int,
    yd: int,
    cf: u8,
    d: GrowthDirection,
    gs: Seq<GVertex>,
)
    requires
        gen_any(level, xw, xd, yw, yd, cf, d, gs),
    ensures
        forall|k: int|
            0 <= k < gs.len() ==> ((#[trigger] gs[k]).color == Color::Green <==> gs[k].level == 0),
{
    lemma_gen_any_shape(level, xw, xd, yw, yd, cf, d, gs);
}

/// Index pairing: a generated tree's index list has even length and splits
/// into consecutive pairs; position `k` holds index `k`, so both indices of
/// the pair ending at position `2k + 1` reference vertices appended before the
/// pair was closed, and in particular stay below the vertex count.
pub proof fn lemma_index_pairing(
    t: Tree,
    level: nat,
    x: FracCoord,
    y: FracCoord,
    cf: u8,
    d: GrowthDirection,
)
    requires
        generated_tree(t, level, x, y, cf, d),
    ensures
        t.indices@.len() == t.vertices@.len(),
        t.indices@.len() % 2 == 0,
        forall|k: int|
            0 <= k && 2 * k + 1 < t.indices@.len() ==> (#[trigger] t.indices@[2 * k]) as int == 2
                * k && t.indices@[2 * k + 1] as int == 2 * k + 1 && 2 * k + 1
                < t.vertices@.len(),
{
    let gs = choose|gs: Seq<GVertex>|
        #[trigger] verts_match(t.vertices@, gs) && gen_any(
            level,
            x.whole as int,
            x.diag as int,
            y.whole as int,
            y.diag as int,
            cf,
            d,
            gs,
        );
    lemma_gen_any_shape(level, x.whole as int, x.diag as int, y.whole as int, y.diag as int, cf, d, gs);
}

/// Segment length invariance: at a fixed level, every direction's offset has
/// the same Euclidean length — twice its squared length is `2 * pow2(2 *
/// level)` whether the direction is cardinal or diagonal — and the per-axis
/// whole and diagonal parts never mix, which is what makes `delta_len_sq_x2`
/// twice the true squared length.
pub proof fn lemma_segment_length_invariance(d1: GrowthDirection, d2: GrowthDirection, level: nat)
    ensures
        delta_len_sq_x2(step_delta(d1, level)) == 2 * pow2(2 * level),
        delta_len_sq_x2(step_delta(d1, level)) == delta_len_sq_x2(step_delta(d2, level)),
        step_delta(d1, level).xw * step_delta(d1, level).xd == 0,
        step_delta(d1, level).yw * step_delta(d1, level).yd == 0,
{
    lemma_one_direction_length(d1, level);
    lemma_one_direction_length(d2, level);
}

/// Twice the squared offset length of a single direction.
proof fn lemma_one_direction_length(d: GrowthDirection, level: nat)
    ensures
        delta_len_sq_x2(step_delta(d, level)) == 2 * pow2(2 * level),
        step_delta(d, level).xw * step_delta(d, level).xd == 0,
        step_delta(d, level).yw * step_delta(d, level).yd == 0,
{
    let m = pow2(level) as int;
    lemma_pow2_adds(level, level);
    assert(pow2(level + level) == pow2(level) * pow2(level));
    assert(pow2(2 * level) == m * m);
    assert((-m) * (-m) == m * m) by (nonlinear_arith);
    assert((-m) * 0 == 0) by (nonlinear_arith);
    assert(m * 0 == 0) by (nonlinear_arith);
    assert(0 * (-m) == 0) by (nonlinear_arith);
    assert(0 * m == 0) by (nonlinear_arith);
    match d {
        GrowthDirection::Left => {},
        GrowthDirection::UpperLeft => {},
        GrowthDirection::Up => {},
        GrowthDirection::UpperRight => {},
        GrowthDirection::Right => {},
        GrowthDirection::LowerRight => {},
        GrowthDirection::Down => {},
        GrowthDirection::LowerLeft => {},
    }
}

/// Probability bound: with completeness factor 0 no draw can fall below the
/// threshold, so no branch recurses past the initial call — every possible
/// outcome is exactly the one segment, two vertices.
pub proof fn lemma_single_segment_without_completeness(
    level: nat,
    xw: int,
    xd: int,
    yw: int,
    yd: int,
    d: GrowthDirection,
    gs: Seq<GVertex>,
)
    requires
        gen_any(level, xw, xd, yw, yd, 0u8, d, gs),
    ensures
        gs == seg_gverts(level, xw, xd, yw, yd, d),
        gs.len() == 2,
{
    let dl = step_delta(d, level);
    if level > 0 {
        lemma_branches_empty_without_completeness(
            level,
            xw + dl.xw,
            xd + dl.xd,
            yw + dl.yw,
            yd + dl.yd,
            d,
            8,
            gs.skip(2),
        );
    }
    assert(gs =~= gs.take(2));
}

/// With completeness factor 0 the branching loop produces nothing.
proof fn lemma_branches_empty_without_completeness(
    level: nat,
    exw: int,
    exd: int,
    eyw: int,
    eyd: int,
    d: GrowthDirection,
    i: int,
    b: Seq<GVertex>,
)
    requires
        level >= 1,
        branches_upto(level, exw, exd, eyw, eyd, 0u8, d, i, b),
    ensures
        b.len() == 0,
    decreases i,
{
    if i <= 0 {
    } else {
        let (b0, c) = choose|b0: Seq<GVertex>, c: Seq<GVertex>|
            {
                &&& b == #[trigger] (b0 + c)
                &&& branches_upto(level, exw, exd, eyw, eyd, 0u8, d, i - 1, b0)
                &&& piece_ok(level, exw, exd, eyw, eyd, 0u8, d, i - 1, c)
            };
        lemma_branches_empty_without_completeness(level, exw, exd, eyw, eyd, d, i - 1, b0);
    }
}

/// The single-segment law carried to a whole tree: with completeness factor 0
/// a generated tree holds exactly one segment — two vertices (the start point
/// and one step in `d`) and the index pair `[0, 1]`.
pub proof fn lemma_tree_single_segment(
    t: Tree,
    level: nat,
    x: FracCoord,
    y: FracCoord,
    d: GrowthDirection,
)
    requires
        generated_tree(t, level, x, y, 0u8, d),
    ensures
        t.vertices@.len() == 2,
        t.indices@.len() == 2,
        t.indices@[0] == 0u32,
        t.indices@[1] == 1u32,
        t.vertices@[0] == (Vertex { x: x, y: y, color: color_for(level) }),
        vertex_matches(
            t.vertices@[1],
            seg_gverts(level, x.whole as int, x.diag as int, y.whole as int, y.diag as int, d)[1],
        ),
{
    let xw = x.whole as int;
    let xd = x.diag as int;
    let yw = y.whole as int;
    let yd = y.diag as int;
    let gs = choose|gs: Seq<GVertex>|
        #[trigger] verts_match(t.vertices@, gs) && gen_any(level, xw, xd, yw, yd, 0u8, d, gs);
    lemma_single_segment_without_completeness(level, xw, xd, yw, yd, d, gs);
    assert(vertex_matches(t.vertices@[0], gs[0]));
    assert(vertex_matches(t.vertices@[1], gs[1]));
    let v = t.vertices@[0];
    assert(v.x.whole == x.whole && v.x.diag == x.diag && v.y.whole == y.whole && v.y.diag
        == y.diag);
}

/// Determinism with fixed randomness: the vertex buffers of two trees that
/// realize the same idealized outcome are byte-identical. Together with the
/// generator's contract — a scripted source makes the outcome a function of
/// the configuration and the script alone — two runs with identical
/// configuration and identical scripts produce identical arrays.
pub proof fn lemma_deterministic_replay(va: Seq<Vertex>, vb: Seq<Vertex>, gs: Seq<GVertex>)
    requires
        verts_match(va, gs),
        verts_match(vb, gs),
    ensures
        va == vb,
{
    assert forall|k: int| 0 <= k < va.len() implies va[k] == vb[k] by {
        assert(vertex_matches(va[k], gs[k]));
        assert(vertex_matches(vb[k], gs[k]));
    }
    assert(va =~= vb);
}

/// Determinism at the forest level: two forests whose trees realize the same
/// idealized outcomes, tree by tree — as two scripted `generate_forest` runs
/// with identical configuration and scripts do — have byte-identical vertex
/// and index buffers throughout.
pub proof fn lemma_forest_deterministic_replay(fa: Forest, fb: Forest, ms: Seq<Seq<GVertex>>)
    requires
        fa.trees@.len() == ms.len(),
        fb.trees@.len() == ms.len(),
        forall|k: int|
            0 <= k < ms.len() ==> (#[trigger] fa.trees@[k]).wf() && verts_match(
                fa.trees@[k].vertices@,
                ms[k],
            ),
        forall|k: int|
            0 <= k < ms.len() ==> (#[trigger] fb.trees@[k]).wf() && verts_match(
                fb.trees@[k].vertices@,
                ms[k],
            ),
    ensures
        forall|k: int|
            0 <= k < ms.len() ==> (#[trigger] fa.trees@[k]).vertices@ == fb.trees@[k].vertices@
                && fa.trees@[k].indices@ == fb.trees@[k].indices@,
{
    assert forall|k: int| 0 <= k < ms.len() implies (#[trigger] fa.trees@[k]).vertices@
        == fb.trees@[k].vertices@ && fa.trees@[k].indices@ == fb.trees@[k].indices@ by {
        lemma_deterministic_replay(fa.trees@[k].vertices@, fb.trees@[k].vertices@, ms[k]);
        lemma_indices_determined(fa.trees@[k], fb.trees@[k]);
    }
}

/// Two well-formed trees with equal vertex buffers have equal index buffers
/// too: the index list of a well-formed tree is determined by its length.
pub proof fn lemma_indices_determined(ta: Tree, tb: Tree)
    requires
        ta.wf(),
        tb.wf(),
        ta.vertices@ == tb.vertices@,
    ensures
        ta.indices@ == tb.indices@,
{
    assert forall|k: int| 0 <= k < ta.indices@.len() implies ta.indices@[k] == tb.indices@[k] by {
        assert(ta.indices@[k] as int == k);
        assert(tb.indices@[k] as int == k);
    }
    assert(ta.indices@ =~= tb.indices@);
}

} // verus!
