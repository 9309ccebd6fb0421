//! Overlay-construction renderer for filling PDF form templates.
//!
//! The crate turns a list of field placements and values into a freestanding
//! PDF object graph — page tree, font resources, content streams, widget
//! annotations with appearance streams, and embedded images — meant to be
//! composited over the original template by an external merge backend.

pub mod cache;
pub mod fetcher;
pub mod merge;
pub mod numfmt;
pub mod widgets;
pub mod images;
pub mod layout;
pub mod objects;
pub mod ops;
pub mod page_select;
pub mod renderer;
pub mod to_image;
pub mod types;
