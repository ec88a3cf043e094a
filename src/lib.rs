pub mod codec;
pub mod diagram;
pub mod editor;
pub mod filter;
pub mod geometry;
pub mod model;
pub mod render;
pub mod text;
pub mod ui;
