//! An inclusive range of byte sizes, kept only for membership checks.
use vstd::prelude::*;

use crate::scale::ByteScale;

verus! {

/// An inclusive `[start, stop]` pair of byte sizes.  A missing lower bound
/// defaults to zero bytes, a missing upper bound to the largest
/// representable size.
pub struct HumanByteRange {
    start: ByteScale,
    stop: ByteScale,
}

impl HumanByteRange {
    /// The inclusive lower bound.
    pub closed spec fn spec_start(&self) -> ByteScale {
        self.start
    }

    /// The inclusive upper bound.
    pub closed spec fn spec_stop(&self) -> ByteScale {
        self.stop
    }

    /// A range with the given bounds; omitted bounds default to zero and
    /// to the largest representable size.
    pub fn new(start: Option<ByteScale>, stop: Option<ByteScale>) -> (r: HumanByteRange)
        ensures
            r.spec_start() == match start {
                Some(b) => b,
                None => ByteScale(0),
            },
            r.spec_stop() == match stop {
                Some(b) => b,
                None => ByteScale(u64::MAX),
            },
    {
        let s = match start {
            Some(b) => b,
            None => ByteScale(0),
        };
        let t = match stop {
            Some(b) => b,
            None => ByteScale(u64::MAX),
        };
        HumanByteRange { start: s, stop: t }
    }

    /// The inclusive lower bound.
    pub fn start_bound(&self) -> (r: ByteScale)
        ensures
            r == self.spec_start(),
    {
        self.start
    }

    /// The inclusive upper bound.
    pub fn end_bound(&self) -> (r: ByteScale)
        ensures
            r == self.spec_stop(),
    {
        self.stop
    }

    /// True exactly when `v` lies within the inclusive bounds.
    pub fn contains(&self, v: &ByteScale) -> (r: bool)
        ensures
            r == (self.spec_start().0 <= v.0 <= self.spec_stop().0),
    {
        self.start.0 <= v.0 && v.0 <= self.stop.0
    }
}

impl ByteScale {
    /// Provides `HumanByteRange` with explicit lower and upper bounds.
    pub fn range(start: ByteScale, stop: ByteScale) -> (r: HumanByteRange)
        ensures
            r.spec_start() == start,
            r.spec_stop() == stop,
    {
        HumanByteRange::new(Some(start), Some(stop))
    }

    /// Provides `HumanByteRange` with an explicit lower bound; the upper
    /// bound is the largest representable size.
    pub fn range_start(start: ByteScale) -> (r: HumanByteRange)
        ensures
            r.spec_start() == start,
            r.spec_stop() == ByteScale(u64::MAX),
    {
        HumanByteRange::new(Some(start), None)
    }

    /// Provides `HumanByteRange` with an explicit upper bound; the lower
    /// bound is zero bytes.
    pub fn range_stop(stop: ByteScale) -> (r: HumanByteRange)
        ensures
            r.spec_start() == ByteScale(0),
            r.spec_stop() == stop,
    {
        HumanByteRange::new(None, Some(stop))
    }
}

} // verus!
