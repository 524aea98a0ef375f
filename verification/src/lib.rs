//! Discrete core of a path-tracing renderer.
//!
//! The renderer traces rays through a scene and writes one colour per pixel
//! into a row-major image grid. Its floating-point geometry lives outside
//! this crate; what is verified here is the exact bookkeeping the render
//! loop depends on:
//!
//! - the image grid itself ([`image::ImageSize`]) and the mapping between a
//!   pixel's coordinates and its linear index, which doubles as the pixel's
//!   output slot and the identity of its dedicated random stream;
//! - the bounding-volume-hierarchy build's skeleton ([`bvh`]): the median
//!   partition step and the recursive tree construction, proved to order,
//!   preserve and split the primitives — the tree's leaves hold exactly the
//!   input, and the recursion terminates;
//! - allocation of texture and material identifiers for generated scene
//!   descriptions ([`ids`]), with a proof that distinct counter values can
//!   never collide;
//! - the checkerboard lattice parity test ([`texture`]);
//! - the planar primitive outlines ([`shape::Shape`]).

pub mod bvh;
pub mod ids;
pub mod image;
pub mod pixel;
pub mod shape;
pub mod texture;
