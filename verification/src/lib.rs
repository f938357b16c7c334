//! A software rasterization and simulation surface: an RGB pixel buffer with
//! point, line and polygon-outline drawing, byte-exact encoding to an
//! uncompressed 24-bit bitmap file, and a cellular-automaton step that reads
//! the buffer's colors as cell state.

pub mod bmp;
pub mod color;
pub mod framebuffer;
pub mod life;
pub mod rasterizer;

pub use bmp::Bitmap;
pub use color::Color;
pub use framebuffer::Framebuffer;
pub use rasterizer::Point;
