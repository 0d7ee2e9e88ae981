//! A small favicon-discovery library.
//!
//! Given a page's HTML text and its base URL, the resolver collects icon
//! candidates (icon links, apple-touch-icon links and a fixed list of
//! well-known paths), scores each by its declared pixel size, and picks the
//! best one. Around it stand the decision steps of an HTTP service: query
//! validation, failure classification, and the choice between passing an SVG
//! through unchanged and resizing a raster image to a square PNG.

pub mod imaging;
pub mod links;
pub mod orchestrate;
pub mod resolver;
pub mod score;
pub mod strutil;
pub mod urls;
