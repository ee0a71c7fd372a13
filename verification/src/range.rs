//! The axis ranges of the rendered view.

use vstd::prelude::*;
use crate::extrema::Extrema;
use crate::sample::{LARGEST_FINITE, LEAST_FINITE};

verus! {

/// A range along a pixel axis, from `start` to `end`; it runs backward where
/// `start` is the greater.
#[derive(Clone, Copy, Debug, PartialEq, Eq, Structural)]
pub struct PixelRange {
    pub start: usize,
    pub end: usize,
}

/// A range of sample values, given by the encodings of its two ends.
#[derive(Clone, Copy, Debug, PartialEq, Eq, Structural)]
pub struct SampleRange {
    pub start: u64,
    pub end: u64,
}

/// The ranges of the three axes.
#[derive(Clone, Copy, Debug, PartialEq, Eq, Structural)]
pub struct RenderRange {
    /// Columns.
    pub x: PixelRange,
    /// Rows.
    pub y: PixelRange,
    /// Depth.
    pub z: SampleRange,
}

impl PixelRange {
    /// The same range run the other way.
    pub fn reversed(self) -> (r: PixelRange)
        ensures
            r.start == self.end,
            r.end == self.start,
    {
        PixelRange { start: self.end, end: self.start }
    }
}

impl SampleRange {
    /// The same range run the other way.
    pub fn reversed(self) -> (r: SampleRange)
        ensures
            r.start == self.end,
            r.end == self.start,
    {
        SampleRange { start: self.end, end: self.start }
    }
}

/// The depth range: the one given, else the one from the least to the
/// greatest value seen, else the empty range from the largest finite value
/// down to the least.
pub open spec fn depth_range(given: Option<SampleRange>, seen: Option<Extrema>) -> SampleRange {
    match given {
        Some(range) => range,
        None => match seen {
            Some(e) => SampleRange { start: e.min, end: e.max },
            None => SampleRange { start: LARGEST_FINITE, end: LEAST_FINITE },
        },
    }
}

/// The ranges of a view onto a grid of `rows` by `cols` cells. Columns run
/// from 0 to `cols`, or the other way where the view is mirrored; rows run
/// from `rows` down to 0, so that row 0 is on top.
pub open spec fn view_ranges(
    rows: usize,
    cols: usize,
    mirror: bool,
    given: Option<SampleRange>,
    seen: Option<Extrema>,
) -> RenderRange {
    RenderRange {
        x: if mirror {
            PixelRange { start: cols, end: 0 }
        } else {
            PixelRange { start: 0, end: cols }
        },
        y: PixelRange { start: rows, end: 0 },
        z: depth_range(given, seen),
    }
}

/// Resolves the ranges of the three axes.
pub fn resolve_ranges(
    rows: usize,
    cols: usize,
    mirror: bool,
    given: Option<SampleRange>,
    seen: Option<Extrema>,
) -> (r: RenderRange)
    ensures
        r == view_ranges(rows, cols, mirror, given, seen),
{
    let across = PixelRange { start: 0, end: cols };
    let z = match given {
        Some(range) => range,
        None => match seen {
            Some(e) => SampleRange { start: e.min, end: e.max },
            None => SampleRange { start: LARGEST_FINITE, end: LEAST_FINITE },
        },
    };
    RenderRange {
        x: if mirror { across.reversed() } else { across },
        y: PixelRange { start: rows, end: 0 },
        z,
    }
}

} // verus!
