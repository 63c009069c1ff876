//! Playback core of a desktop music player: the playlist and its cursor,
//! the playback coordinator's state machine, the library catalog, and the
//! small text and image-sampling helpers around them.

pub mod catalog;
pub mod color;
pub mod coordinator;
pub mod palette;
pub mod paths;
pub mod playlist;
pub mod track;
