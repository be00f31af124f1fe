//! A rotation-aware file sink, as a pair of verified state machines.
//!
//! The writer decides, for every request, whether the bytes may go to the
//! open file or whether the file must first be rotated out; the rotation
//! plan decides which file-system step comes next and when the rotation has
//! failed, and compresses the archive chunk by chunk. Neither touches a
//! file: the caller performs each step that a machine asks for and reports
//! how it went.
//!
//! - `counters`: line and byte counts, and the thresholds of rotation.
//! - `archive`: the names of archives, and the format of their timestamps.
//! - `writer`: the writer's states and its answers to requests.
//! - `rotation`: the steps of a rotation.
//! - `compress`: the gzip encoder that a rotation streams the archive
//!   through.
//! - `ledger`: what the writer's decisions add up to on disk, proved.

pub mod archive;
mod clock;
pub mod compress;
pub mod counters;
pub mod ledger;
pub mod rotation;
pub mod writer;

pub use archive::{
    compressed_dest, has_file_extension, is_timestamp, rotate_dest, LogicalPath,
};
pub use counters::{countlines, Counters, Recovery, RotationMode, SCAN_CHUNK};
pub use rotation::{Command, Outcome, Phase, Rotation, COMPRESS_CHUNK};
pub use writer::{Directive, OpenError, Request, Resumed, RotatingFile, WriterState};
