//! A verified core for terminal slide presentations: structural document
//! elements are compiled into per-slide programs of primitive render
//! operations, with unicode-aware measurement, theme resolution, and
//! incremental-reveal splitting.

pub mod builder;
pub mod elements;
pub mod highlighting;
pub mod metadata;
pub mod presentation;
pub mod resources;
pub mod strutil;
pub mod style;
pub mod theme;
pub mod text;
pub mod width;
