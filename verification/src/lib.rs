//! The verified core of a terminal mirror.

pub mod clock;
pub mod command;
pub mod connection;
pub mod daemon;
pub mod daemon_laws;
pub mod env;
pub mod escape;
pub mod file_laws;
pub mod frame_laws;
pub mod grid;
pub mod idmap;
pub mod json;
pub mod paint_laws;
pub mod path_laws;
pub mod paths;
pub mod render;
pub mod restore;
pub mod screen;
pub mod shared;
pub mod socket;
pub mod start_laws;
pub mod state;
pub mod state_laws;
pub mod status;
pub mod streamer;
pub mod subscription;
pub mod sync;
pub mod sync_laws;
pub mod text;
pub mod text_laws;
pub mod transport;
pub mod util;
pub mod width;
