//! Drawing adapters for a 2D plotting engine inside a UI-component tree.
//!
//! The vector path turns each drawing command (pixel, line, rectangle, path,
//! polygon, circle, text) into one inline vector-markup element, in drawing
//! order; commands in a fully transparent color draw nothing. The raster path
//! holds a zeroed RGB pixel buffer for the engine to draw on and encodes it as a
//! PNG image inside a `data:` URI.
//!
//! - [`text`]: exact decimal, hexadecimal and escaped text.
//! - [`decimal`]: exact decimal numbers for opacities and font sizes.
//! - [`style`]: colors and the styles that commands carry.
//! - [`markup`]: the element of each command.
//! - [`backend`]: the vector adapters.
//! - [`raster`]: the pixel buffer and its encoding.

pub mod backend;
pub mod decimal;
pub mod markup;
pub mod raster;
pub mod style;
pub mod text;
