pub mod render;
pub mod text;
