//! Core of a terminal gateway that authenticates users and launches and
//! records game sessions.
//!
//! The library holds the verified logic: the menu navigation state machine
//! and its load-time validation, the action interpreter over an explicit
//! session and user directory, path resolution and the file-copy policy
//! model, and the binary frame codec of the session recorder. Terminal
//! input and output, the configuration file, the credential store and the
//! child processes live outside the library and talk to it in plain values.

pub mod engine;
pub mod files;
pub mod menu;
pub mod record;
pub mod users;
