//! Terminal composition for a system-fetch display: colour tags, display
//! width, block layout, padding and borders, and terminal-graphics framing.

pub mod art;
pub mod block;
pub mod compose;
pub mod compose_lemmas;
pub mod config;
pub mod cursor;
pub mod escapes;
pub mod frame;
pub mod frame_lemmas;
pub mod geometry;
pub mod kitty;
pub mod merge;
pub mod render;
pub mod stage;
pub mod strip_lemmas;
pub mod tag_lemmas;
pub mod tags;
pub mod telemetry;
pub mod text;
pub mod width;
