//! Transit maps as coloured polylines over integer points, rendered to an SVG
//! fragment that can be spliced into a host document.
//!
//! * [`model`] holds the points, colours, lines and the map itself.
//! * [`render`] turns a map into a document and into a fragment.
//! * [`utils`] removes the outer `<svg ...>...</svg>` wrapper from markup.
//! * [`text`] reads and writes characters, small numbers and stroke colours.
//! * [`backend`] is the `svg` crate as the library sees it.

pub mod backend;
pub mod model;
pub mod render;
pub mod text;
pub mod utils;

pub use model::{Color, Line, OutOfRange, Point, TransitMap};
pub use render::single_shape_demo;
pub use utils::strip;
