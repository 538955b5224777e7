//! Pure logic of the shmooz Wayland zoom, annotation and screenshot tool:
//! configuration values, the annotation model, the keyboard interaction
//! state machine, the software rasterizer for the overlays and the pixel
//! format handling used for screenshots.
pub mod annotations;
pub mod cli;
pub mod clipboard;
pub mod config;
pub mod control;
pub mod error;
pub mod focus;
pub mod glyphs;
pub mod help;
pub mod keys;
pub mod output;
pub mod overlay;
pub mod pointer;
pub mod raster;
pub mod render;
pub mod screenshot;
pub mod state;
pub mod text;
