//! Photo model: the capture moment and per-photo facts that the
//! render-decision engine reads.

use vstd::prelude::*;
use crate::size::SizeCollection;

verus! {

/// A moment in time with its original UTC offset, as photo metadata and
/// cached snapshots record it: seconds since the Unix epoch plus the
/// offset, in seconds, of the local clock that produced the value.
///
/// Ordering and distance computations use `seconds` alone, so two stamps
/// denote the same instant exactly when their `seconds` agree.
#[derive(Clone, Copy, PartialEq, Eq, Structural, Debug)]
pub struct Stamp {
    /// Seconds since the Unix epoch (UTC).
    pub seconds: i64,
    /// Offset of the recording clock from UTC, in seconds.
    pub offset_seconds: i32,
}

/// One photo of a post, reduced to what the engine decides with: its
/// stable discovery ordinal, the optional capture moment, the tag names
/// assigned to it, and the advisory outlier flag.
#[derive(Clone, Debug)]
pub struct Photo {
    /// Ordinal index within the owning post, assigned at discovery and
    /// never changed afterwards; unique within the post.
    pub index: u8,
    /// When the photo was captured, if its metadata said.
    pub taken_on: Option<Stamp>,
    /// Display names of the tags assigned to this photo.
    pub tags: Vec<String>,
    /// Whether the capture date deviates far from the post's dominant
    /// temporal cluster. Advisory only: the photo is still rendered, but
    /// it is ignored when the representative date is computed.
    pub date_outlier: bool,
    /// The rendered sizes of the photo.
    pub size: SizeCollection,
}

impl Photo {
    /// The capture seconds, for photos that have a capture moment.
    pub open spec fn spec_seconds(self) -> i64
        recommends
            self.taken_on is Some,
    {
        self.taken_on->Some_0.seconds
    }

    /// Whether the photo carries a capture moment.
    pub open spec fn is_dated(self) -> bool {
        self.taken_on is Some
    }
}

} // verus!
