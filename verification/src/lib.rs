//! Session management logic for the traex CLI: the formatting of the session
//! list, the choice of the state database, title normalisation, the batch
//! commands, the version check of the updater and the list's state machine.

pub mod text;
pub mod calendar;
pub mod format;
pub mod store;
pub mod mutate;
pub mod app;
pub mod rename;
pub mod version;
pub mod update;
pub mod cli;
pub mod view;
pub mod double;
