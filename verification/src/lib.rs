//! kefirdrop's verified core: the decisions and data handling of a
//! MilkDrop-style music visualizer, apart from the GPU, audio and file I/O
//! that surround them.

pub mod shader;
pub mod preset;
pub mod config;
pub mod text;
pub mod audio;
pub mod control;
pub mod render;
