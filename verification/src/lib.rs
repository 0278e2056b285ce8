//! The decisions of a launcher that keeps a versioned tool package up to
//! date and then starts the tool inside an embedded runtime.
//!
//! The library performs no input or output. It says what is to be done next
//! and takes in what came of it: a driver reads the environment, the disk
//! and the network, talks to the runtime, and reports back.
//!
//! - `resolver` finds the highest installed version among the entries of the
//!   package root; `version` holds what it has from the `semver` crate.
//! - `remote` takes the latest version out of the answer to the version query.
//! - `descriptor` resolves the download URL of a version; `fetcher` bounds
//!   the redirects of a fetch.
//! - `installer` installs a version unless it is installed already, and
//!   refuses what is no version.
//! - `embedder` starts the runtime, hands the arguments over and calls the
//!   entry point of the tool.
//! - `launcher` puts all of them in their order.
//! - `layout` says where things are on disk.

pub mod descriptor;
pub mod embedder;
pub mod fetcher;
pub mod installer;
pub mod launcher;
pub mod layout;
pub mod remote;
pub mod resolver;
pub mod text;
pub mod version;
