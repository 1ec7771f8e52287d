//! A fuzzy picker, its file explorer and its image previews, verified.
pub mod text;
pub mod path;
pub mod graphics;
pub mod media;
pub mod placeholder;
pub mod matcher;
pub mod geometry;
pub mod key;
pub mod highlight;
pub mod preview;
pub mod draw;
pub mod pane;
pub mod query;
pub mod column;
pub mod layout;
pub mod picker;
pub mod raster;
pub mod explorer;
pub mod fileops;
