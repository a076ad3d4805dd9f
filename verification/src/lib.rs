//! Layout, rendering and change detection for a one-bit e-paper dashboard.
//!
//! A dashboard is a tree of rectangular [`area::Area`]s. Each area owns a
//! small pixel buffer; drawing the tree flattens it into an
//! [`frame::EpdImage`], a packed one-bit frame. Two frames can be compared
//! with [`diff::diff`] to find the part of the display that has to be
//! refreshed, and [`payload::RenderAction`] puts a frame, or that part of
//! it, into the bytes that the display takes.
//!
//! Text and images reach an area from outside: text as the pixels of its
//! glyphs ([`text`]), images as decoded rasters ([`raster`]). Fonts, files
//! and the network are left to the program round this library.
//!
//! [`layout`] lays out the dashboard itself, with a calendar ([`calendar`],
//! [`agenda`]), the weather ([`weather`]), a quote ([`quote`]) and an image;
//! [`dash`] makes its frames, one after the other.

pub mod agenda;
pub mod area;
pub mod calendar;
pub mod dash;
pub mod diff;
pub mod error;
pub mod fonts;
pub mod frame;
pub mod graphics;
pub mod layout;
pub mod payload;
pub mod quote;
pub mod raster;
pub mod rotation;
pub mod text;
pub mod weather;
