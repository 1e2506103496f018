//! Procedural generation of fractal tree wireframes.
//!
//! A [`generator::TreeGenerator`] grows randomized, self-similar branching
//! structures made of line segments, packaged as vertex and index arrays in
//! line-list topology, ready for a rendering backend.

pub mod direction;
pub mod generator;
pub mod geometry;
pub mod laws;
pub mod rng;
pub mod tree;

pub use direction::GrowthDirection;
pub use generator::MAX_FRACTAL_LEVEL;
pub use generator::TreeGenerator;
pub use geometry::Color;
pub use geometry::FracCoord;
pub use geometry::Vertex;
pub use rng::RandomSource;
pub use tree::Forest;
pub use tree::Tree;
