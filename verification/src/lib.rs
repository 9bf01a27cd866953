//! The choice of the cargo that builds a runtime.
//!
//! A runtime is built for one of two targets (`target`), by a cargo that can
//! build for it. Which cargo that is depends on the environment of the build
//! (`environment`) and on the toolchains that the machine holds. Each
//! candidate is a way to invoke cargo (`command`), asked for its version
//! (`version`, `scan`) and for the targets it knows (`target_list`); rustup
//! names the toolchains it has installed (`rustup`). The search among them
//! (`resolver`) decides what is asked and what is made of the answers, and
//! leaves it to its caller to run the processes.

pub mod command;
pub mod environment;
pub mod files;
pub mod resolver;
pub mod rustup;
pub mod scan;
pub mod target;
pub mod target_list;
pub mod text;
pub mod version;
