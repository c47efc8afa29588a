//! Decides how to open a URL in the user's web browser on Unix-like systems.
//!
//! The crate spawns no process and reads no environment variable. It takes the
//! values of `BROWSER` and `XDG_CURRENT_DESKTOP` and the URL, and says which
//! commands to try, in which order, whether to wait for each, and what to
//! report once a command has started or every one has failed.

pub mod browsers;
pub mod launcher;
pub mod plan;
pub mod template;
pub mod text;
