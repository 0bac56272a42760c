//! Shuffles the caller's saved tracks into a target playlist on a
//! music-streaming service: the verified core of the run, from the
//! configuration decision through the token-lifecycle state machine to the
//! chunked rewrite plan for the playlist.

pub mod config;
pub mod session;
pub mod shuffle;
pub mod track;
pub mod uri;
pub mod writer;
