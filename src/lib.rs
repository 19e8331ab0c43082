//! A small wireframe rendering pipeline on 16.16 fixed-point numbers: vector and
//! 4x4 matrix algebra, camera and projection builders, a scene of named objects
//! made of vertices, edges and faces, back-face culling and screen projection.
//!
//! Conventions:
//! - every coordinate is a `Fixed`: a raw `i32` in units of `1 / ONE`; products
//!   and quotients round toward zero and saturate at the bounds of `i32`;
//! - multiplying a point by a matrix divides its `x`, `y`, `z` by the resulting
//!   `w` unless that `w` is 0 or 1, and keeps `w` (`matrix::apply_of`);
//! - the perspective projection takes positive distances, `0 < near < far`;
//! - screen projection divides by `w` and flips y; a point with `w == 0` lies at
//!   infinity and is passed through unscaled (`figure::Vertex::screen_of`);
//! - back-face culling keeps a face when its normal points against the direction
//!   from the eye to its centroid (`scene::front_facing`).

pub mod fixed;
pub mod vector;
pub mod matrix;
pub mod figure;
pub mod scene;
