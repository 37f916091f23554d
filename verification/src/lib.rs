//! Identicons: small mirrored sprites whose shape and colour are read off the
//! bytes of a hash.

pub mod color;
pub mod icon;
pub mod nibbler;
pub mod raster;
pub mod sprite;

pub use color::{Color, ColorBits, IdenticonJSOptions, Mode};
pub use icon::Identicon;
pub use nibbler::Nibbler;
pub use raster::Raster;
