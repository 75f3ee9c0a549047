//! Reorganizes a music library laid out as `Artist/Album/Track_<uuid>.ext`:
//! strips a trailing UUID marker from each track filename and computes where
//! the cleaned file belongs under a destination root, or the new name for an
//! in-place rename.
//!
//! This crate holds the verified core: the UUID pattern matcher, the path
//! decomposition that derives artist and album from a file's position in the
//! tree, the destination composition, and the per-file planning decisions.
//! The unverified shell around it does the actual directory walk and the
//! file copies and renames, acting only on plans produced here.

pub mod model;
pub mod paths;
pub mod pattern;
pub mod plan;
pub mod strutil;
