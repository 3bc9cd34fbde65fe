//! Build OpenSCAD scripts from typed two- and three-dimensional shape trees.
pub mod number;
pub mod text;
pub mod common;
pub mod scad2d;
pub mod scad3d;
pub mod nesting;
pub mod laws;

pub use number::{v2, v3, X, XY, XYZ};
pub use common::{Aim, ColorEnum, DIterator, JoinKind};
pub use scad2d::{indent, D2};
pub use scad3d::{indent_d3, D3};
