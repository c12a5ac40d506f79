//! Markers: what one emission call hands to the native facility.

use crate::name::CName;
use vstd::prelude::*;

verus! {

/// Whether `id` is one of the two identifiers that the native facility keeps
/// for itself: zero ("no identifier") and the largest value ("any").
pub open spec fn is_reserved_id(id: u64) -> bool {
    id == 0 || id == u64::MAX
}

/// Tells whether `id` is reserved by the native facility.
#[verifier::when_used_as_spec(is_reserved_id)]
pub fn reserved_id(id: u64) -> (r: bool)
    ensures
        r == is_reserved_id(id),
{
    id == 0 || id == u64::MAX
}

/// The three kinds of marker.
#[derive(Clone, Copy, Debug, PartialEq, Eq, Structural)]
pub enum SignpostType {
    /// A single point in time.
    Event,
    /// The start of an interval.
    IntervalBegin,
    /// The end of an interval.
    IntervalEnd,
}

impl SignpostType {
    /// The number by which the native facility knows this kind.
    pub open spec fn spec_code(self) -> u8 {
        match self {
            SignpostType::Event => 0,
            SignpostType::IntervalBegin => 1,
            SignpostType::IntervalEnd => 2,
        }
    }

    /// The number by which the native facility knows this kind.
    #[verifier::when_used_as_spec(spec_code)]
    pub fn code(self) -> (c: u8)
        ensures
            c == self.spec_code(),
    {
        match self {
            SignpostType::Event => 0,
            SignpostType::IntervalBegin => 1,
            SignpostType::IntervalEnd => 2,
        }
    }

    /// Length of the scratch buffer that an emission of this kind is given.
    ///
    /// The facility wants a buffer that the caller owns even where a marker
    /// carries no payload.
    pub open spec fn spec_scratch_len(self) -> u32 {
        match self {
            SignpostType::Event => 64,
            SignpostType::IntervalBegin => 64,
            SignpostType::IntervalEnd => 4,
        }
    }

    /// Length of the scratch buffer that an emission of this kind is given.
    #[verifier::when_used_as_spec(spec_scratch_len)]
    pub fn scratch_len(self) -> (n: u32)
        ensures
            n == self.spec_scratch_len(),
    {
        match self {
            SignpostType::Event => 64,
            SignpostType::IntervalBegin => 64,
            SignpostType::IntervalEnd => 4,
        }
    }
}

/// A marker as a mathematical value.
pub struct MarkerView {
    pub handle: usize,
    pub kind: SignpostType,
    pub id: u64,
    pub name: Seq<u8>,
    pub scratch_len: u32,
}

impl MarkerView {
    /// The marker of kind `kind` for `id` and `name` on the channel `handle`.
    pub open spec fn of(handle: usize, kind: SignpostType, id: u64, name: Seq<u8>) -> MarkerView {
        MarkerView { handle, kind, id, name, scratch_len: kind.spec_scratch_len() }
    }
}

/// The arguments of one emission call, ready to be handed to the facility.
#[derive(Debug, PartialEq, Eq)]
pub struct Marker<'a> {
    /// The channel to emit on.
    pub handle: usize,
    /// Event, interval begin or interval end.
    pub kind: SignpostType,
    /// Identifier that pairs the begin and the end of an interval.
    pub id: u64,
    /// Name shown by the profiling tool.
    pub name: &'a CName,
    /// Length of the scratch buffer to pass along.
    pub scratch_len: u32,
}

impl<'a> View for Marker<'a> {
    type V = MarkerView;

    open spec fn view(&self) -> MarkerView {
        MarkerView {
            handle: self.handle,
            kind: self.kind,
            id: self.id,
            name: self.name@,
            scratch_len: self.scratch_len,
        }
    }
}

impl<'a> Marker<'a> {
    /// Builds the marker of kind `kind` for `id` and `name` on `handle`.
    pub fn new(handle: usize, kind: SignpostType, id: u64, name: &'a CName) -> (m: Marker<'a>)
        ensures
            m@ == MarkerView::of(handle, kind, id, name@),
    {
        Marker { handle, kind, id, name, scratch_len: kind.scratch_len() }
    }
}

/// The view of a marker that may be absent.
pub open spec fn view_of(m: Option<Marker<'_>>) -> Option<MarkerView> {
    match m {
        Some(m) => Some(m@),
        None => None,
    }
}

} // verus!
