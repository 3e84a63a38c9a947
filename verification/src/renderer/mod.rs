pub mod comp;
pub mod gl;
pub mod motion;
pub mod shapes;
pub mod warp;
pub mod waves;
