//! Verified core of a terminal SSH connection manager: the server records,
//! the add/edit form, the application state machine, the key handling and
//! the pieces of screen layout that are computed rather than drawn.
pub mod text;
pub mod server;
pub mod form;
pub mod app;
pub mod input;
pub mod display;
