//! Drawing on packed one-bit canvases.

pub mod canvas;
pub mod color;
pub mod error;
pub mod font;
pub mod laws;
pub mod model;
pub mod monochrome_canvas;
pub mod shapes;
pub mod vec;

pub use canvas::{Canvas, CircleType};
pub use color::{BlendMode, Color};
pub use error::Error;
pub use font::{Font, Glyph};
pub use model::{CanvasView, Dot};
pub use monochrome_canvas::MonochromeCanvas;
pub use vec::{UVec2, Vec2};
