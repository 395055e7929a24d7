//! A text-mode display driver: colors, cells, and a writer that renders a
//! byte stream into a fixed grid of character cells with a highlighted cursor,
//! line wrapping and scrolling.

pub mod low_level;
