//! The verified core of an automatic video editor: it finds the quiet stretches of a recording,
//! cuts it into clips, picks the clips worth keeping, and writes the assembly for MELT.

pub mod assembly;
pub mod binary64;
pub mod config;
pub mod log;
pub mod melt;
pub mod messages;
pub mod paths;
pub mod processing;
pub mod random;
pub mod sort_clips;
pub mod tempdir;
pub mod text;
pub mod ui;
pub mod video;
pub mod video_info;
