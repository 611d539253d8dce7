pub mod sdf;
pub mod marching_cubes;
