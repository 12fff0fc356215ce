//! Total viewshed surfaces over a digital elevation model.
//!
//! The crate holds the geometric core of a "band of sight" total-viewshed
//! computation: for each interior cell of a square elevation grid, 180
//! angular sectors are swept, and for each sector a single template of
//! signed index deltas traces the band of sight of every point.  The
//! modules here carry the integer geometry — cell orderings, the band-delta
//! template, the per-band ring-sector bookkeeping and the buffer layout —
//! each with a proved contract.  The floating-point visibility angles and
//! all I/O live with the caller, which hands plain values in and out.

use vstd::prelude::*;

pub mod ascii;
pub mod axes;
pub mod band_of_sight;
pub mod cache;
pub mod compute;
pub mod config;
pub mod dem;
pub mod dispatch;
pub mod kernel;
pub mod terrain;

verus! {

/// The failures the core can surface.
#[derive(Clone, Copy, PartialEq, Eq, Structural, Debug)]
pub enum Error {
    /// The requested line of sight does not fit inside the grid.
    ConfigInvalid,
    /// A band found more visible rings than its reserved slice can hold.
    BufferOverrun,
    /// A byte buffer is not a well-formed terrain file.
    TerrainInvalid,
    /// A ring-data buffer is shorter than its declared layout.
    RingDataTruncated,
    /// No dispatch grid could cover the requested invocations.
    DispatchUnavailable,
}

} // verus!
