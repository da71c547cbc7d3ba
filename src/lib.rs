pub mod geometry;
pub mod generation;
pub mod clip;
pub mod order;
pub mod camera;
