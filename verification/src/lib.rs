//! OpenFetch: an extensible downloader core.
//!
//! The library holds the logic of the downloader: platform detection,
//! extension and plugin registries with intent matching, the hook system,
//! the task stores of the cloud service and of the local server with the
//! answers of their routes, the task records of the database, the script
//! runtimes, the computations of the command line and the state of the
//! desktop window, and the text handling they rely on.

pub mod text;
pub mod json;
pub mod plugin;
pub mod extension;
pub mod cloud;
pub mod extensions;
pub mod runtime;
pub mod sync;
pub mod error;
pub mod engine;
pub mod cli;
pub mod server;
pub mod gui;
