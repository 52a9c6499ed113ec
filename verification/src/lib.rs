//! Tools for hashing images with a perceptual hash and collating the hashes
//! to find near or complete duplicates.
//!
//! The crate performs no I/O of its own: callers read the candidate files and
//! hand their contents in, and every decision about them is made here.

pub mod distance;
pub mod gif;
pub mod hasher;
pub mod img;
pub mod compare;
pub mod grouping;
pub mod threaded;
pub mod collecting;
pub mod search;
pub mod session;

pub use compare::{find_uniques, UniqueImage};
pub use img::Image;
pub use search::ImageSearch;
pub use session::SessionBuilder;
