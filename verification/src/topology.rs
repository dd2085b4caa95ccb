//! Colors, vertices and meshes.

pub mod color;
pub mod mesh;
pub mod model;
pub mod part;
pub mod vertex;
