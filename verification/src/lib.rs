//! Planning of tiled wallpapers: how many copies of a square texture cover a
//! canvas, where each copy goes, how it is turned, which texture is drawn where
//! several are mixed by weight, and whether the finished picture is worth keeping.

pub mod arguments;
pub mod compositor;
pub mod config;
pub mod image_converter;
pub mod output_gate;
pub mod random_helper;
pub mod text;
pub mod tile_layout;
