use vstd::prelude::*;

pub mod canvas;
pub mod config;
pub mod text;
pub mod uri_list;
pub mod region;
pub mod panel;
pub mod tabs;
pub mod cutout;
pub mod sheet;
pub mod keys;
pub mod stickers;
pub mod session;
