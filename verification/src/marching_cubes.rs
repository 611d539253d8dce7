pub mod table;
pub mod tiling;
pub mod refine;
