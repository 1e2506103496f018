//! The recursive fractal branching algorithm.
//!
//! `generate_tree` appends one line segment to a tree and then, for each
//! compass direction other than the one the branch just grew from, draws one
//! byte and recurses (one level lower, from the segment's end point) whenever
//! the draw is strictly below the completeness factor. `generate_forest` runs
//! one such call per tree, always from the origin growing `Up`.
//!
//! The behaviour is pinned by two specification models. The functional model
//! [`gen`] gives the exact vertex sequence produced from a scripted draw
//! stream. The relational model [`gen_any`] describes every outcome an
//! arbitrary (ambient) draw sequence can produce; every generated tree is
//! guaranteed to satisfy it, which is what the structural laws are proved
//! from.

use vstd::prelude::*;
use vstd::arithmetic::mul::lemma_mul_inequality;
use vstd::arithmetic::mul::lemma_mul_is_distributive_add_other_way;
use vstd::arithmetic::power2::lemma2_to64;
use vstd::arithmetic::power2::lemma2_to64_rest;
use vstd::arithmetic::power2::lemma_pow2_strictly_increases;
use vstd::arithmetic::power2::lemma_pow2_unfold;
use crate::direction::GrowthDirection;
use crate::direction::coords_ok;
use crate::direction::dir_at;
use crate::direction::dir_index;
use crate::direction::segment_end;
use crate::direction::step_delta;
use crate::geometry::Color;
use crate::geometry::FracCoord;
use crate::geometry::GVertex;
use crate::geometry::Vertex;
use crate::geometry::color_for;
use crate::geometry::vertex_matches;
use crate::geometry::verts_match;
use crate::rng::RandomSource;
use crate::rng::first_draw;
use crate::rng::rest_draws;
use crate::tree::Forest;
use crate::tree::Tree;

verus! {

/// Largest recursion depth a generator accepts. Keeps every index of a fully
/// branched tree within `u32` (a tree at depth `L` has at most
/// `2 * max_segs(L)` vertices) and recursion far from the stack limit.
pub const MAX_FRACTAL_LEVEL: u8 = 10;

/// Largest number of segments one generation call at `level` can append: the
/// segment itself, plus up to seven sub-branches one level lower.
pub open spec fn max_segs(level: nat) -> nat
    decreases level,
{
    if level == 0 {
        1
    } else {
        1 + 7 * max_segs((level - 1) as nat)
    }
}

/// The two idealized vertices of one segment grown from `(xw + xd/sqrt(2),
/// yw + yd/sqrt(2))` in direction `d` at recursion level `level`: the start
/// point, then the end point, both tagged with the level's color.
pub open spec fn seg_gverts(
    level: nat,
    xw: int,
    xd: int,
    yw: int,
    yd: int,
    d: GrowthDirection,
) -> Seq<GVertex> {
    let dl = step_delta(d, level);
    seq![
        GVertex { xw: xw, xd: xd, yw: yw, yd: yd, color: color_for(level), level: level },
        GVertex {
            xw: xw + dl.xw,
            xd: xd + dl.xd,
            yw: yw + dl.yw,
            yd: yd + dl.yd,
            color: color_for(level),
            level: level,
        },
    ]
}

/// Functional model of one generation call on a scripted draw stream `s`:
/// the vertices it appends, and the part of the stream it leaves for later
/// calls. A draw from an exhausted stream reads as 0.
pub open spec fn gen(
    level: nat,
    xw: int,
    xd: int,
    yw: int,
    yd: int,
    cf: u8,
    d: GrowthDirection,
    s: Seq<u8>,
) -> (Seq<GVertex>, Seq<u8>)
    decreases level, 9int,
{
    let seg = seg_gverts(level, xw, xd, yw, yd, d);
    if level == 0 {
        (seg, s)
    } else {
        let dl = step_delta(d, level);
        let r = gen_branches(level, xw + dl.xw, xd + dl.xd, yw + dl.yw, yd + dl.yd, cf, d, 0, s);
        (seg + r.0, r.1)
    }
}

/// Functional model of the branching loop of a node at `level >= 1` whose
/// segment ended at the given point: one draw per direction index in `i..8`
/// other than the incoming direction's own index — that direction is excluded
/// and consumes nothing — recursing into `gen` whenever the draw is below
/// `cf`.
pub open spec fn gen_branches(
    level: nat,
    exw: int,
    exd: int,
    eyw: int,
    eyd: int,
    cf: u8,
    d: GrowthDirection,
    i: int,
    s: Seq<u8>,
) -> (Seq<GVertex>, Seq<u8>)
    decreases level, 8 - i,
{
    if i < 0 || i >= 8 || level == 0 {
        (Seq::empty(), s)
    } else if i == dir_index(d) {
        gen_branches(level, exw, exd, eyw, eyd, cf, d, i + 1, s)
    } else {
        let n = first_draw(s);
        let s1 = rest_draws(s);
        let c = if n < cf {
            gen((level - 1) as nat, exw, exd, eyw, eyd, cf, dir_at(i), s1)
        } else {
            (Seq::<GVertex>::empty(), s1)
        };
        let r = gen_branches(level, exw, exd, eyw, eyd, cf, d, i + 1, c.1);
        (c.0 + r.0, r.1)
    }
}

/// Relational model of one candidate sub-branch at direction index `i` of a
/// node at `level >= 1`: either nothing grew there, or growth was possible —
/// the index differs from the incoming direction's and some byte is below
/// `cf`, hence `cf > 0` — and the piece is itself a generated sub-tree.
pub open spec fn piece_ok(
    level: nat,
    exw: int,
    exd: int,
    eyw: int,
    eyd: int,
    cf: u8,
    d: GrowthDirection,
    i: int,
    c: Seq<GVertex>,
) -> bool
    decreases level, 0int,
{
    ||| c.len() == 0
    ||| (i != dir_index(d) && cf > 0 && level >= 1 && gen_any(
        (level - 1) as nat,
        exw,
        exd,
        eyw,
        eyd,
        cf,
        dir_at(i),
        c,
    ))
}

/// Relational model of the first `i` iterations of the branching loop of a
/// node at `level >= 1`: `b` splits into one (possibly empty) piece per
/// candidate index in `0..i`, in order.
pub open spec fn branches_upto(
    level: nat,
    exw: int,
    exd: int,
    eyw: int,
    eyd: int,
    cf: u8,
    d: GrowthDirection,
    i: int,
    b: Seq<GVertex>,
) -> bool
    decreases level, i,
{
    if i <= 0 {
        b.len() == 0
    } else {
        exists|b0: Seq<GVertex>, c: Seq<GVertex>|
            {
                &&& b == #[trigger] (b0 + c)
                &&& branches_upto(level, exw, exd, eyw, eyd, cf, d, i - 1, b0)
                &&& piece_ok(level, exw, exd, eyw, eyd, cf, d, i - 1, c)
            }
    }
}

/// Relational model of one generation call: `gs` starts with the segment's
/// two vertices and continues with whatever branch growth the draws allowed.
/// Every call satisfies this, whichever source supplied the draws.
pub open spec fn gen_any(
    level: nat,
    xw: int,
    xd: int,
    yw: int,
    yd: int,
    cf: u8,
    d: GrowthDirection,
    gs: Seq<GVertex>,
) -> bool
    decreases level, 9int,
{
    let dl = step_delta(d, level);
    &&& gs.len() >= 2
    &&& gs.take(2) == seg_gverts(level, xw, xd, yw, yd, d)
    &&& if level == 0 {
        gs.len() == 2
    } else {
        branches_upto(
            level,
            xw + dl.xw,
            xd + dl.xd,
            yw + dl.yw,
            yd + dl.yd,
            cf,
            d,
            8,
            gs.skip(2),
        )
    }
}

/// The executable vertices `vs` realize some possible outcome of a generation
/// call with these arguments.
pub open spec fn matches_gen_any(
    vs: Seq<Vertex>,
    level: nat,
    xw: int,
    xd: int,
    yw: int,
    yd: int,
    cf: u8,
    d: GrowthDirection,
) -> bool {
    exists|gs: Seq<GVertex>|
        #[trigger] verts_match(vs, gs) && gen_any(level, xw, xd, yw, yd, cf, d, gs)
}

/// `t` is a complete tree grown by one top-level generation call from
/// `(x, y)` in direction `d`.
pub open spec fn generated_tree(
    t: Tree,
    level: nat,
    x: FracCoord,
    y: FracCoord,
    cf: u8,
    d: GrowthDirection,
) -> bool {
    &&& t.wf()
    &&& matches_gen_any(
        t.vertices@,
        level,
        x.whole as int,
        x.diag as int,
        y.whole as int,
        y.diag as int,
        cf,
        d,
    )
}

/// Functional model of forest assembly on a scripted draw stream: `n` trees,
/// each generated from the origin growing `Up`, consuming the stream in
/// order.
pub open spec fn gen_forest(n: nat, level: nat, cf: u8, s: Seq<u8>) -> (Seq<Seq<GVertex>>, Seq<u8>)
    decreases n,
{
    if n == 0 {
        (Seq::empty(), s)
    } else {
        let t = gen(level, 0, 0, 0, 0, cf, GrowthDirection::Up, s);
        let r = gen_forest((n - 1) as nat, level, cf, t.1);
        (seq![t.0] + r.0, r.1)
    }
}

/// A generation call appends at least one segment.
pub proof fn lemma_max_segs_pos(level: nat)
    ensures
        max_segs(level) >= 1,
    decreases level,
{
    if level > 0 {
        lemma_max_segs_pos((level - 1) as nat);
    }
}

/// `max_segs` grows with the level.
pub proof fn lemma_max_segs_mono(a: nat, b: nat)
    requires
        a <= b,
    ensures
        max_segs(a) <= max_segs(b),
    decreases b,
{
    if a < b {
        lemma_max_segs_mono(a, (b - 1) as nat);
        lemma_max_segs_pos((b - 1) as nat);
    }
}

/// Concrete worst-case size at the deepest accepted level: small enough that
/// every vertex index of a tree fits in `u32`.
pub proof fn lemma_max_segs_at_limit()
    ensures
        max_segs(MAX_FRACTAL_LEVEL as nat) == 329554457,
{
    reveal_with_fuel(max_segs, 12);
}

/// Matching is preserved by concatenation.
proof fn lemma_verts_match_concat(v1: Seq<Vertex>, v2: Seq<Vertex>, g1: Seq<GVertex>, g2: Seq<
    GVertex,
>)
    requires
        verts_match(v1, g1),
        verts_match(v2, g2),
    ensures
        verts_match(v1 + v2, g1 + g2),
{
    assert forall|k: int| 0 <= k < (v1 + v2).len() implies vertex_matches(
        #[trigger] (v1 + v2)[k],
        (g1 + g2)[k],
    ) by {
        if k < v1.len() {
            assert(vertex_matches(v1[k], g1[k]));
        } else {
            assert(vertex_matches(v2[k - v1.len()], g2[k - g1.len()]));
        }
    }
}

/// How many of the candidate indices below `i` were eligible to spawn a
/// sub-branch (all but the incoming direction's index `di`).
spec fn elig_before(i: int, di: int) -> int {
    if i > di {
        i - 1
    } else {
        i
    }
}

/// Holds generation parameters and implements the recursive branching
/// algorithm.
pub struct TreeGenerator {
    pub fractal_level: u8,
    pub completeness_factor: u8,
    pub num_trees: u16,
}

impl TreeGenerator {
    /// The configuration is valid: recursion depth within the accepted range.
    pub open spec fn wf(self) -> bool {
        self.fractal_level <= MAX_FRACTAL_LEVEL
    }

    /// A generator with the given parameters, fixed for its lifetime.
    pub fn new(fractal_level: u8, completeness_factor: u8, num_trees: u16) -> (g: Self)
        requires
            fractal_level <= MAX_FRACTAL_LEVEL,
        ensures
            g.wf(),
            g.fractal_level == fractal_level,
            g.completeness_factor == completeness_factor,
            g.num_trees == num_trees,
    {
        Self { fractal_level, completeness_factor, num_trees }
    }

    /// Append one line segment grown from `(start_x, start_y)` in `direction`
    /// at recursion level `fractal_level`, then recurse into every other
    /// direction whose draw falls below `completeness_factor`.
    ///
    /// The appended vertices always realize some outcome of the relational
    /// model; with a scripted source they equal the functional model of the
    /// source's remaining bytes, which pins them completely.
    pub fn generate_tree(
        tree: &mut Tree,
        fractal_level: u32,
        start_x: FracCoord,
        start_y: FracCoord,
        completeness_factor: u8,
        direction: GrowthDirection,
        rng: &mut RandomSource,
    )
        requires
            old(tree).wf(),
            old(rng).inv(),
            fractal_level <= MAX_FRACTAL_LEVEL as u32,
            coords_ok(start_x, start_y, fractal_level as nat),
            old(tree).vertices@.len() + 2 * max_segs(fractal_level as nat) <= 0x1_0000_0000,
        ensures
            final(tree).wf(),
            final(rng).inv(),
            final(rng).is_scripted() == old(rng).is_scripted(),
            final(tree).vertices@.len() >= old(tree).vertices@.len() + 2,
            final(tree).vertices@.len() <= old(tree).vertices@.len() + 2 * max_segs(
                fractal_level as nat,
            ),
            final(tree).vertices@.take(old(tree).vertices@.len() as int) == old(tree).vertices@,
            matches_gen_any(
                final(tree).vertices@.skip(old(tree).vertices@.len() as int),
                fractal_level as nat,
                start_x.whole as int,
                start_x.diag as int,
                start_y.whole as int,
                start_y.diag as int,
                completeness_factor,
                direction,
            ),
            old(rng).is_scripted() ==> ({
                let r = gen(
                    fractal_level as nat,
                    start_x.whole as int,
                    start_x.diag as int,
                    start_y.whole as int,
                    start_y.diag as int,
                    completeness_factor,
                    direction,
                    old(rng).remaining(),
                );
                verts_match(final(tree).vertices@.skip(old(tree).vertices@.len() as int), r.0)
                    && final(rng).remaining() == r.1
            }),
            !old(rng).is_scripted() ==> *final(rng) == *old(rng),
        decreases fractal_level,
    {
        let ghost old_vs = tree.vertices@;
        let ghost lvl = fractal_level as nat;
        let ghost sxw = start_x.whole as int;
        let ghost sxd = start_x.diag as int;
        let ghost syw = start_y.whole as int;
        let ghost syd = start_y.diag as int;
        let ghost dl = step_delta(direction, lvl);
        let ghost s0 = rng.remaining();
        let ghost seg_g = seg_gverts(lvl, sxw, sxd, syw, syd, direction);

        proof {
            lemma_max_segs_pos(lvl);
        }

        let ends = segment_end(start_x, start_y, fractal_level, direction);
        let end_x = ends.0;
        let end_y = ends.1;
        let color = if fractal_level == 0 {
            Color::Green
        } else {
            Color::Brown
        };
        let v0 = Vertex { x: start_x, y: start_y, color: color };
        let v1 = Vertex { x: end_x, y: end_y, color: color };

        tree.vertices.push(v0);
        let i0 = tree.vertices.len() - 1;
        tree.indices.push(i0 as u32);
        tree.vertices.push(v1);
        let i1 = tree.vertices.len() - 1;
        tree.indices.push(i1 as u32);

        proof {
            assert(vertex_matches(v0, seg_g[0]));
            assert(vertex_matches(v1, seg_g[1]));
            assert(tree.vertices@ =~= old_vs + seq![v0, v1]);
            assert forall|k: int| 0 <= k < tree.indices@.len() implies #[trigger] tree.indices@[k]
                as int == k by {
                if k < old_vs.len() {
                    assert(tree.indices@[k] == old(tree).indices@[k]);
                }
            }
            assert(tree.wf());
            assert(verts_match(tree.vertices@.skip(old_vs.len() as int), seg_g));
        }

        if fractal_level == 0 {
            proof {
                assert(seg_g.take(2) =~= seg_g);
                assert(gen_any(lvl, sxw, sxd, syw, syd, completeness_factor, direction, seg_g));
                assert(tree.vertices@.take(old_vs.len() as int) =~= old_vs);
            }
            return ;
        }
        let ghost exw = sxw + dl.xw;
        let ghost exd = sxd + dl.xd;
        let ghost eyw = syw + dl.yw;
        let ghost eyd = syd + dl.yd;
        let ghost p = old_vs.len() as int + 2;
        let ghost di = dir_index(direction);
        let ghost msub = max_segs((lvl - 1) as nat) as int;
        let ghost ms = max_segs(lvl) as int;

        proof {
            // the end point leaves room for one more level of recursion
            lemma_pow2_unfold((lvl + 1) as nat);
            assert(coords_ok(end_x, end_y, (lvl - 1) as nat));
            lemma_max_segs_pos((lvl - 1) as nat);
            assert(ms == 1 + 7 * msub);
        }

        let ghost mut done_r: Seq<GVertex> = Seq::empty();
        let ghost mut done_s: Seq<GVertex> = Seq::empty();
        let mut i: u8 = 0;

        while i < 8
            invariant
                i <= 8,
                fractal_level >= 1,
                fractal_level <= MAX_FRACTAL_LEVEL as u32,
                lvl == fractal_level as nat,
                dl == step_delta(direction, lvl),
                di == dir_index(direction),
                exw == sxw + dl.xw && exd == sxd + dl.xd && eyw == syw + dl.yw && eyd == syd
                    + dl.yd,
                end_x.whole as int == exw && end_x.diag as int == exd,
                end_y.whole as int == eyw && end_y.diag as int == eyd,
                coords_ok(end_x, end_y, (lvl - 1) as nat),
                msub == max_segs((lvl - 1) as nat) as int,
                msub >= 1,
                ms == max_segs(lvl) as int,
                ms == 1 + 7 * msub,
                old_vs == old(tree).vertices@,
                p == old_vs.len() + 2,
                old_vs.len() + 2 * ms <= 0x1_0000_0000,
                seg_g == seg_gverts(lvl, sxw, sxd, syw, syd, direction),
                tree.wf(),
                rng.inv(),
                rng.is_scripted() == old(rng).is_scripted(),
                !old(rng).is_scripted() ==> *rng == *old(rng),
                tree.vertices@.len() >= p,
                tree.vertices@.take(p) == old_vs + seq![v0, v1],
                verts_match(tree.vertices@.skip(p), done_r),
                branches_upto(lvl, exw, exd, eyw, eyd, completeness_factor, direction, i as int, done_r),
                tree.vertices@.len() <= p + 2 * (elig_before(i as int, di) * msub),
                old(rng).is_scripted() ==> {
                    &&& s0 == old(rng).remaining()
                    &&& verts_match(tree.vertices@.skip(p), done_s)
                    &&& gen_branches(lvl, exw, exd, eyw, eyd, completeness_factor, direction, 0, s0).0
                        == done_s + gen_branches(lvl, exw, exd, eyw, eyd, completeness_factor, direction, i as int, rng.remaining()).0
                    &&& gen_branches(lvl, exw, exd, eyw, eyd, completeness_factor, direction, 0, s0).1
                        == gen_branches(lvl, exw, exd, eyw, eyd, completeness_factor, direction, i as int, rng.remaining()).1
                },
            decreases 8 - i,
        {
            let cand = GrowthDirection::from_index(i);
            if cand.index() == direction.index() {
                // the incoming direction is excluded and draws nothing
                proof {
                    let empty_g = Seq::<GVertex>::empty();
                    assert(done_r =~= done_r + empty_g);
                    assert(piece_ok(
                        lvl,
                        exw,
                        exd,
                        eyw,
                        eyd,
                        completeness_factor,
                        direction,
                        i as int,
                        empty_g,
                    ));
                    assert(branches_upto(
                        lvl,
                        exw,
                        exd,
                        eyw,
                        eyd,
                        completeness_factor,
                        direction,
                        i as int + 1,
                        done_r,
                    ));
                    if old(rng).is_scripted() {
                        assert(gen_branches(lvl, exw, exd, eyw, eyd, completeness_factor, direction, i as int, rng.remaining())
                            == gen_branches(lvl, exw, exd, eyw, eyd, completeness_factor, direction, i as int + 1, rng.remaining()));
                    }
                }
                i = i + 1;
            } else {
                let ghost rem_i = rng.remaining();
                let n = rng.next_u8();
                let recurse = n < completeness_factor;
                proof {
                    if old(rng).is_scripted() {
                        assert(n == first_draw(rem_i));
                        assert(rng.remaining() == rest_draws(rem_i));
                    }
                }
                if recurse {
                    proof {
                        let e = elig_before(i as int, di);
                        assert(0 <= e && e <= 6);
                        lemma_mul_inequality(e, 6, msub);
                        assert(tree.vertices@.len() + 2 * msub <= 0x1_0000_0000);
                    }
                    let ghost cur = *tree;
                    let ghost rem_c = rng.remaining();
                    TreeGenerator::generate_tree(
                        tree,
                        fractal_level - 1,
                        end_x,
                        end_y,
                        completeness_factor,
                        cand,
                        rng,
                    );
                    proof {
                        let cur_len = cur.vertices@.len() as int;
                        let app_c = tree.vertices@.skip(cur_len);
                        let gs_c = choose|gs: Seq<GVertex>|
                            #[trigger] verts_match(app_c, gs) && gen_any(
                                (lvl - 1) as nat,
                                exw,
                                exd,
                                eyw,
                                eyd,
                                completeness_factor,
                                dir_at(i as int),
                                gs,
                            );
                        assert(tree.vertices@.take(p) =~= cur.vertices@.take(p));
                        assert(tree.vertices@.skip(p) =~= cur.vertices@.skip(p) + app_c);
                        lemma_verts_match_concat(cur.vertices@.skip(p), app_c, done_r, gs_c);
                        done_r = done_r + gs_c;
                        assert(piece_ok(
                            lvl,
                            exw,
                            exd,
                            eyw,
                            eyd,
                            completeness_factor,
                            direction,
                            i as int,
                            gs_c,
                        ));
                        assert(branches_upto(
                            lvl,
                            exw,
                            exd,
                            eyw,
                            eyd,
                            completeness_factor,
                            direction,
                            i as int + 1,
                            done_r,
                        ));
                        let e = elig_before(i as int, di);
                        lemma_mul_is_distributive_add_other_way(msub, e, 1);
                        assert(elig_before(i as int + 1, di) == e + 1);
                        assert(tree.vertices@.len() <= p + 2 * (elig_before(i as int + 1, di) * msub));
                        if old(rng).is_scripted() {
                            let r_c = gen(
                                (lvl - 1) as nat,
                                exw,
                                exd,
                                eyw,
                                eyd,
                                completeness_factor,
                                dir_at(i as int),
                                rem_c,
                            );
                            lemma_verts_match_concat(cur.vertices@.skip(p), app_c, done_s, r_c.0);
                            let ghost done_s0 = done_s;
                            done_s = done_s + r_c.0;
                            assert(gen_branches(lvl, exw, exd, eyw, eyd, completeness_factor, direction, i as int, rem_i).0
                                == r_c.0 + gen_branches(lvl, exw, exd, eyw, eyd, completeness_factor, direction, i as int + 1, r_c.1).0);
                            assert(done_s0 + (r_c.0 + gen_branches(lvl, exw, exd, eyw, eyd, completeness_factor, direction, i as int + 1, r_c.1).0)
                                =~= done_s + gen_branches(lvl, exw, exd, eyw, eyd, completeness_factor, direction, i as int + 1, r_c.1).0);
                        }
                    }
                } else {
                    proof {
                        let e = elig_before(i as int, di);
                        lemma_mul_inequality(e, elig_before(i as int + 1, di), msub);
                        let empty_g = Seq::<GVertex>::empty();
                        assert(done_r =~= done_r + empty_g);
                        assert(piece_ok(
                            lvl,
                            exw,
                            exd,
                            eyw,
                            eyd,
                            completeness_factor,
                            direction,
                            i as int,
                            empty_g,
                        ));
                        assert(branches_upto(
                            lvl,
                            exw,
                            exd,
                            eyw,
                            eyd,
                            completeness_factor,
                            direction,
                            i as int + 1,
                            done_r,
                        ));
                        if old(rng).is_scripted() {
                            assert(gen_branches(lvl, exw, exd, eyw, eyd, completeness_factor, direction, i as int, rem_i).0
                                =~= gen_branches(lvl, exw, exd, eyw, eyd, completeness_factor, direction, i as int + 1, rest_draws(rem_i)).0);
                        }
                    }
                }
                i = i + 1;
            }
        }
        proof {
            let ol = old_vs.len() as int;
            let appended = tree.vertices@.skip(ol);
            let gs_all = seg_g + done_r;
            assert forall|j: int| 0 <= j < ol implies tree.vertices@.take(ol)[j] == old_vs[j] by {
                assert(tree.vertices@.take(p)[j] == (old_vs + seq![v0, v1])[j]);
            }
            assert(tree.vertices@.take(ol) =~= old_vs);
            assert forall|j: int| 0 <= j < appended.len() implies appended[j] == (seq![v0, v1]
                + tree.vertices@.skip(p))[j] by {
                if j < 2 {
                    assert(tree.vertices@.take(p)[ol + j] == (old_vs + seq![v0, v1])[ol + j]);
                }
            }
            assert(appended =~= seq![v0, v1] + tree.vertices@.skip(p));
            lemma_verts_match_concat(seq![v0, v1], tree.vertices@.skip(p), seg_g, done_r);
            assert(verts_match(appended, gs_all));
            assert(gs_all.take(2) =~= seg_g);
            assert(gs_all.skip(2) =~= done_r);
            assert(gen_any(lvl, sxw, sxd, syw, syd, completeness_factor, direction, gs_all));
            lemma_mul_inequality(elig_before(8, di), 7, msub);
            assert(tree.vertices@.len() <= old_vs.len() + 2 * ms);
            if old(rng).is_scripted() {
                let gs_s = seg_g + done_s;
                lemma_verts_match_concat(seq![v0, v1], tree.vertices@.skip(p), seg_g, done_s);
                assert(gen_branches(lvl, exw, exd, eyw, eyd, completeness_factor, direction, 8, rng.remaining()).0 =~= Seq::<GVertex>::empty());
                assert(done_s + Seq::<GVertex>::empty() =~= done_s);
                assert(gen(lvl, sxw, sxd, syw, syd, completeness_factor, direction, s0).0
                    == seg_g + gen_branches(lvl, exw, exd, eyw, eyd, completeness_factor, direction, 0, s0).0);
                assert(verts_match(appended, gs_s));
            }
        }
    }

    /// Build a forest of `num_trees` independently generated trees, each grown
    /// from the origin in direction `Up` at the configured depth. The
    /// generator itself is never changed, so it can be reused.
    pub fn generate_forest(&mut self, rng: &mut RandomSource) -> (forest: Forest)
        requires
            old(self).wf(),
            old(rng).inv(),
        ensures
            *final(self) == *old(self),
            final(rng).inv(),
            final(rng).is_scripted() == old(rng).is_scripted(),
            forest.trees@.len() == old(self).num_trees as int,
            forall|k: int|
                0 <= k < forest.trees@.len() ==> generated_tree(
                    #[trigger] forest.trees@[k],
                    old(self).fractal_level as nat,
                    (FracCoord { whole: 0, diag: 0 }),
                    (FracCoord { whole: 0, diag: 0 }),
                    old(self).completeness_factor,
                    GrowthDirection::Up,
                ),
            old(rng).is_scripted() ==> ({
                let r = gen_forest(
                    old(self).num_trees as nat,
                    old(self).fractal_level as nat,
                    old(self).completeness_factor,
                    old(rng).remaining(),
                );
                &&& forest.trees@.len() == r.0.len()
                &&& (forall|k: int|
                    0 <= k < forest.trees@.len() ==> verts_match(
                        (#[trigger] forest.trees@[k]).vertices@,
                        r.0[k],
                    ))
                &&& final(rng).remaining() == r.1
            }),
            !old(rng).is_scripted() ==> *final(rng) == *old(rng),
    {
        let ghost lvl = self.fractal_level as nat;
        let ghost cf = self.completeness_factor;
        let ghost n_total = self.num_trees as int;
        let ghost s0 = rng.remaining();
        let ghost zero = FracCoord { whole: 0, diag: 0 };

        proof {
            lemma2_to64();
            lemma2_to64_rest();
            if lvl + 1 < 62 {
                lemma_pow2_strictly_increases((lvl + 1) as nat, 62);
            }
            assert(coords_ok(zero, zero, lvl));
            lemma_max_segs_mono(lvl, MAX_FRACTAL_LEVEL as nat);
            lemma_max_segs_at_limit();
        }

        let mut forest = Forest::new();
        let ghost mut models: Seq<Seq<GVertex>> = Seq::empty();
        let mut i: u16 = 0;
        while i < self.num_trees
            invariant
                i as int <= n_total,
                *self == *old(self),
                self.wf(),
                lvl == self.fractal_level as nat,
                cf == self.completeness_factor,
                n_total == self.num_trees as int,
                zero == (FracCoord { whole: 0, diag: 0 }),
                rng.inv(),
                rng.is_scripted() == old(rng).is_scripted(),
                !old(rng).is_scripted() ==> *rng == *old(rng),
                forest.trees@.len() == i as int,
                forall|k: int|
                    0 <= k < i as int ==> generated_tree(
                        #[trigger] forest.trees@[k],
                        lvl,
                        zero,
                        zero,
                        cf,
                        GrowthDirection::Up,
                    ),
                old(rng).is_scripted() ==> {
                    &&& s0 == old(rng).remaining()
                    &&& models.len() == i as int
                    &&& (forall|k: int|
                        0 <= k < i as int ==> verts_match(
                            (#[trigger] forest.trees@[k]).vertices@,
                            models[k],
                        ))
                    &&& gen_forest(n_total as nat, lvl, cf, s0).0 == models + gen_forest(
                        (n_total - i as int) as nat,
                        lvl,
                        cf,
                        rng.remaining(),
                    ).0
                    &&& gen_forest(n_total as nat, lvl, cf, s0).1 == gen_forest(
                        (n_total - i as int) as nat,
                        lvl,
                        cf,
                        rng.remaining(),
                    ).1
                },
            decreases n_total - i as int,
        {
            proof {
                lemma2_to64();
                lemma2_to64_rest();
                if lvl + 1 < 62 {
                    lemma_pow2_strictly_increases((lvl + 1) as nat, 62);
                }
                lemma_max_segs_mono(lvl, MAX_FRACTAL_LEVEL as nat);
                lemma_max_segs_at_limit();
            }
            let ghost rem_i = rng.remaining();
            let mut tree = Tree::new();
            let start = FracCoord { whole: 0, diag: 0 };
            TreeGenerator::generate_tree(
                &mut tree,
                self.fractal_level as u32,
                start,
                start,
                self.completeness_factor,
                GrowthDirection::Up,
                rng,
            );
            proof {
                assert(tree.vertices@.skip(0) =~= tree.vertices@);
                assert(matches_gen_any(tree.vertices@, lvl, 0, 0, 0, 0, cf, GrowthDirection::Up));
                assert(generated_tree(tree, lvl, zero, zero, cf, GrowthDirection::Up));
                if old(rng).is_scripted() {
                    let t_m = gen(lvl, 0, 0, 0, 0, cf, GrowthDirection::Up, rem_i);
                    let rest = gen_forest((n_total - i as int - 1) as nat, lvl, cf, t_m.1);
                    assert(gen_forest((n_total - i as int) as nat, lvl, cf, rem_i).0 == seq![t_m.0]
                        + rest.0);
                    assert(models + (seq![t_m.0] + rest.0) =~= (models + seq![t_m.0]) + rest.0);
                    models = models + seq![t_m.0];
                }
            }
            forest.trees.push(tree);
            i = i + 1;
        }
        proof {
            if old(rng).is_scripted() {
                assert(gen_forest(0, lvl, cf, rng.remaining()).0 =~= Seq::<Seq<GVertex>>::empty());
                assert(models + Seq::<Seq<GVertex>>::empty() =~= models);
            }
        }
        forest
    }
}

} // verus!
