//! A reconciliation and query layer for DJ performance metadata.
//!
//! A track's metadata (cue points, saved loops, track color, beat grid, gain,
//! waveform overview) is stored redundantly across several independent tag
//! records, and those records can disagree about the same logical fact. This
//! crate holds zero or more already-decoded tag records in a [`container::Container`]
//! and answers semantic queries by merging across the records with the exact
//! precedence and invalidation rules the producing ecosystem uses.
//!
//! Byte-level decoding of the tag records is out of scope: every input is an
//! already-validated structured value, and every query is a pure function of
//! the current record set.

pub mod container;
pub mod laws;
pub mod reconcile;
pub mod tag;
pub mod util;
