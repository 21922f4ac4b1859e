//! Keeps a content-delivery bucket in step with a directory of manifests.
//!
//! A manifest declares mirrored files: the key under which each is served, the
//! SHA-256 of its content, and where the content comes from. The library loads
//! manifests, finds entries that collide, classifies every entry against the
//! remote store, verifies downloads while they stream, and lays out the
//! create-only writes that bring the store up to date. It performs no I/O: a
//! caller reads files, talks to the network and hands plain values in.
//!
//! - [`manifest`] loads manifests and reports what is wrong with them;
//!   [`document`] and [`entry`] read the two shapes of an entry, [`index`]
//!   keeps where each name, hash and URL was declared, [`location`] and
//!   [`order`] show and sort those places, and [`collisions`] states what
//!   the reports mean.
//! - [`storage`] asks the store about a file; [`downloader`] and [`utils`]
//!   hash and check what is fetched.
//! - [`upload`] is one run against the store, as a machine that a caller
//!   drives; [`store`] states what a run leaves behind.
//! - [`add_file`] writes the entry for one more file.

pub mod add_file;
pub mod collisions;
pub mod document;
pub mod downloader;
pub mod entry;
pub mod index;
pub mod location;
pub mod manifest;
pub mod order;
pub mod source;
pub mod storage;
pub mod store;
pub mod text;
pub mod upload;
pub mod utils;
