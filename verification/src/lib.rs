//! Binds one packaged document to a version-controlled history kept in a
//! sidecar directory beside it.
//!
//! The library holds the rules: how the sidecar is named and claimed, how an
//! archive maps into the working tree and back, what is committed and pushed,
//! and in which order the five lifecycle operations call on the file system
//! and the version-control engine. It performs no input or output itself: a
//! driver carries out each step that the library asks for and reports back.

pub mod archive;
pub mod binding;
pub mod bridge;
pub mod cli;
pub mod error;
pub mod lifecycle;
pub mod paths;
pub mod roundtrip;
pub mod runs;
pub mod sidecar;
pub mod sync;
