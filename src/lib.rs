//! Version tags for change detection.
//!
//! A [`VersionTag`] is a totally ordered marker drawn from a [`Counter`]. A value derived
//! from several inputs carries [`combine`] of their tags; comparing it with the combined
//! tag of the current inputs tells whether the value must be computed again.
//! A [`SharedTag`] pairs a tag with a per-process instance identifier so that it can be
//! stored and compared across process lifetimes.
use vstd::prelude::*;

pub mod encoding;
pub mod tag;

pub use encoding::{shared, DecodeError, SharedTag};
pub use tag::{combine, Counter, VersionTag};
