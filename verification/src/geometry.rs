//! Geometry primitives: exact 2D coordinates and colored vertices.
//!
//! A branch segment's endpoints always lie on the lattice spanned by the unit
//! step and the diagonal half-step `1/sqrt(2)`, so a coordinate is kept exactly
//! as an integer pair instead of a float: the real value, in units of the
//! renderer's scale constant, is `whole + diag / sqrt(2)`. A rendering layer
//! converts to floating point at the very edge.

use vstd::prelude::*;

verus! {

/// One axis of a position, in fractal units.
///
/// Real value: `whole + diag / sqrt(2)`, to be multiplied by the renderer's
/// scale constant. Cardinal growth steps change only `whole`; diagonal growth
/// steps change only `diag`.
#[derive(Clone, Copy, Debug, PartialEq, Eq, Structural)]
pub struct FracCoord {
    pub whole: i64,
    pub diag: i64,
}

/// Color tag of a vertex. `Green` marks leaf segments (recursion level 0),
/// `Brown` marks inner branch segments. The rendering layer maps the tags to
/// RGB triples.
#[derive(Clone, Copy, Debug, PartialEq, Eq, Structural)]
pub enum Color {
    Green,
    Brown,
}

/// A renderable point: a 2D position (the third coordinate is always zero)
/// plus a color tag. It has no identity beyond its position in a tree's
/// vertex buffer.
#[derive(Clone, Copy, Debug, PartialEq, Eq, Structural)]
pub struct Vertex {
    pub x: FracCoord,
    pub y: FracCoord,
    pub color: Color,
}

/// The color a segment generated at recursion level `level` carries.
pub open spec fn color_for(level: nat) -> Color {
    if level == 0 {
        Color::Green
    } else {
        Color::Brown
    }
}

/// Idealized vertex: an unbounded-integer image of [`Vertex`], annotated with
/// the recursion level of the call that produced it.
pub ghost struct GVertex {
    pub xw: int,
    pub xd: int,
    pub yw: int,
    pub yd: int,
    pub color: Color,
    pub level: nat,
}

/// The executable vertex `v` realizes the idealized vertex `g`.
pub open spec fn vertex_matches(v: Vertex, g: GVertex) -> bool {
    &&& v.x.whole as int == g.xw
    &&& v.x.diag as int == g.xd
    &&& v.y.whole as int == g.yw
    &&& v.y.diag as int == g.yd
    &&& v.color == g.color
}

/// The vertex sequence `vs` realizes the idealized sequence `gs`, pointwise.
pub open spec fn verts_match(vs: Seq<Vertex>, gs: Seq<GVertex>) -> bool {
    &&& vs.len() == gs.len()
    &&& forall|k: int| 0 <= k < vs.len() ==> vertex_matches(#[trigger] vs[k], gs[k])
}

} // verus!
