//! A command-line front end to a media-extraction backend: builds the
//! backend's search token, reads its JSON output into typed search records,
//! renders a numbered listing with a selection prompt, and derives the
//! canonical watch URL for a chosen record. Spawning the backend and the
//! player, and all terminal I/O, live outside this library.

pub mod json;
pub mod present;
pub mod text;
pub mod youtube;
