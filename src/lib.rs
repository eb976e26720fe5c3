//! A software rendering backend core: a glyph bitmap cache, a memoized table of
//! named fonts, coverage-to-pixel color compositing and a walk over a tree of
//! drawing primitives that produces the operations for a 2D rasterizer.
pub mod color;
pub mod glyph_cache;
pub mod fonts;
pub mod path;
pub mod scene;
pub mod backend;
