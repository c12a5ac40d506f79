//! The logger: a named channel and the one-shot latch that guards its handle.

use crate::latch::Latch;
use crate::marker::{is_reserved_id, view_of, Marker, MarkerView, SignpostType};
use crate::name::{has_nul, CName};
use vstd::pervasive::unreached;
use vstd::prelude::*;
use vstd::utf8::{encode_utf8, is_ascii_chars, is_ascii_chars_encode_utf8};

verus! {

/// The category that the profiling tool shows as "Points of Interest".
pub open spec fn points_of_interest() -> Seq<u8> {
    encode_utf8("PointsOfInterest"@)
}

/// What a caller that asks for the handle is told, as a mathematical value.
pub enum ResolutionView {
    Create { subsystem: Seq<u8>, category: Seq<u8> },
    Wait,
    Ready(usize),
}

/// A logger as a mathematical value.
pub struct OsLogView {
    pub subsystem: Seq<u8>,
    pub category: Seq<u8>,
    pub latch: Latch,
}

impl OsLogView {
    /// A logger that nobody has used yet.
    pub open spec fn new(subsystem: Seq<u8>, category: Seq<u8>) -> OsLogView {
        OsLogView { subsystem, category, latch: Latch::Unset }
    }

    /// The same logger under another category.
    pub open spec fn with_category(self, category: Seq<u8>) -> OsLogView {
        OsLogView { category, ..self }
    }

    /// What a caller that asks for the handle now is told.
    pub open spec fn resolution(self) -> ResolutionView {
        match self.latch {
            Latch::Unset => ResolutionView::Create {
                subsystem: self.subsystem,
                category: self.category,
            },
            Latch::Initializing => ResolutionView::Wait,
            Latch::Ready(h) => ResolutionView::Ready(h),
        }
    }

    /// The logger after one more caller has asked for the handle.
    pub open spec fn arrive(self) -> OsLogView {
        OsLogView { latch: self.latch.arrive(), ..self }
    }

    /// The logger after a caller has offered `handle` for publication.
    pub open spec fn publish(self, handle: usize) -> OsLogView {
        OsLogView { latch: self.latch.publish(handle), ..self }
    }

    /// The marker that goes out for `kind`, `id` and `name`: none while the
    /// facility is disabled for this logger's handle.
    pub open spec fn marker(
        self,
        kind: SignpostType,
        id: u64,
        name: Seq<u8>,
        enabled: bool,
    ) -> Option<MarkerView> {
        match self.latch {
            Latch::Ready(h) if enabled => Some(MarkerView::of(h, kind, id, name)),
            _ => None,
        }
    }

    /// The marker that `emit_event` hands out.
    pub open spec fn emit_event(self, id: u64, name: Seq<u8>, enabled: bool) -> Option<
        MarkerView,
    > {
        self.marker(SignpostType::Event, id, name, enabled)
    }

    /// The marker and the guard that `begin_interval` hands out.
    pub open spec fn begin_interval(self, id: u64, name: Seq<u8>, enabled: bool) -> (
        Option<MarkerView>,
        IntervalView,
    ) {
        (
            self.marker(SignpostType::IntervalBegin, id, name, enabled),
            IntervalView { log: self, id, name, ended: false },
        )
    }
}

/// An interval guard as a mathematical value.
pub struct IntervalView {
    pub log: OsLogView,
    pub id: u64,
    pub name: Seq<u8>,
    pub ended: bool,
}

impl IntervalView {
    /// What every guard that `begin_interval` hands out satisfies: its logger's
    /// handle is published and its identifier is not reserved.
    pub open spec fn well_formed(self) -> bool {
        &&& self.log.latch is Ready
        &&& !is_reserved_id(self.id)
    }

    /// The marker that ending the interval hands out, and the guard afterwards.
    ///
    /// Only the first end of a guard can hand out a marker.
    pub open spec fn end(self, enabled: bool) -> (Option<MarkerView>, IntervalView) {
        (
            if self.ended {
                None
            } else {
                self.log.marker(SignpostType::IntervalEnd, self.id, self.name, enabled)
            },
            IntervalView { ended: true, ..self },
        )
    }
}

/// Begin and end of an interval pair up.
///
/// Begin an interval on a logger whose handle is published, and end its guard.
/// Whatever the facility answered at either moment:
/// - a begin marker goes out exactly if the facility was enabled at the begin,
///   an end marker exactly if it was enabled at the end; so where the answer
///   did not change in between, there is an end marker exactly if there is a
///   begin marker;
/// - the begin marker is an interval begin and the end marker an interval end,
///   each with the identifier, the name and the handle that the interval was
///   begun with: the two markers of one guard always match.
pub proof fn lemma_interval_pairing(
    log: OsLogView,
    id: u64,
    name: Seq<u8>,
    at_begin: bool,
    at_end: bool,
)
    requires
        log.latch is Ready,
        !is_reserved_id(id),
    ensures
        ({
            let (begin, guard) = log.begin_interval(id, name, at_begin);
            let (end, after) = guard.end(at_end);
            let handle = log.latch->Ready_0;
            &&& guard.well_formed() && after.well_formed()
            &&& begin == if at_begin {
                Some(MarkerView::of(handle, SignpostType::IntervalBegin, id, name))
            } else {
                None
            }
            &&& end == if at_end {
                Some(MarkerView::of(handle, SignpostType::IntervalEnd, id, name))
            } else {
                None
            }
            &&& at_begin == at_end ==> (begin is Some <==> end is Some)
        }),
{
}

/// A guard ends once.
///
/// However often a guard is ended, and whatever the facility answers each
/// time, only its first end can hand out a marker: after it the guard hands
/// out nothing and does not change any more.
pub proof fn lemma_end_once(guard: IntervalView, first: bool, again: bool)
    ensures
        ({
            let (_, after) = guard.end(first);
            &&& after.ended
            &&& after.end(again) == (None::<MarkerView>, after)
        }),
{
}

/// The category that counts is the one set last before the first use.
///
/// A logger that is created for one category and given another before anyone
/// asks for its handle has the first caller create the handle for the
/// subsystem and the second category.
pub proof fn lemma_category_swap(subsystem: Seq<u8>, first: Seq<u8>, second: Seq<u8>)
    ensures
        OsLogView::new(subsystem, first).with_category(second).resolution()
            == (ResolutionView::Create { subsystem, category: second }),
{
}

/// What a caller that asks a logger for its handle has to do.
#[derive(Debug, PartialEq, Eq)]
pub enum Resolution<'a> {
    /// Create the native handle for this subsystem and category, then publish it.
    Create { subsystem: &'a CName, category: &'a CName },
    /// Another caller is creating the handle: wait for it and ask again.
    Wait,
    /// The handle.
    Ready(usize),
}

impl<'a> View for Resolution<'a> {
    type V = ResolutionView;

    open spec fn view(&self) -> ResolutionView {
        match *self {
            Resolution::Create { subsystem, category } => ResolutionView::Create {
                subsystem: subsystem@,
                category: category@,
            },
            Resolution::Wait => ResolutionView::Wait,
            Resolution::Ready(h) => ResolutionView::Ready(h),
        }
    }
}

/// A signpost logger: a subsystem, a category, and the latch of the native
/// handle that stands for the pair.
#[derive(Debug)]
pub struct OsLog {
    subsystem: CName,
    category: CName,
    latch: Latch,
}

impl View for OsLog {
    type V = OsLogView;

    closed spec fn view(&self) -> OsLogView {
        OsLogView { subsystem: self.subsystem@, category: self.category@, latch: self.latch }
    }
}

impl OsLog {
    /// The category that the profiling tool shows by default, as "Points of
    /// Interest".
    pub fn category_points_of_interest() -> (category: CName)
        ensures
            category@ == points_of_interest(),
    {
        proof {
            reveal_strlit("PointsOfInterest");
            assert(is_ascii_chars("PointsOfInterest"@));
            is_ascii_chars_encode_utf8("PointsOfInterest"@);
            assert(!has_nul(encode_utf8("PointsOfInterest"@)));
        }
        match CName::new("PointsOfInterest") {
            Ok(category) => category,
            Err(_) => unreached(),
        }
    }

    /// A category that is disabled unless the program runs under the
    /// profiling tool. For now it carries the same text as
    /// [`OsLog::category_points_of_interest`].
    pub fn category_dynamic_tracing() -> (category: CName)
        ensures
            category@ == points_of_interest(),
    {
        OsLog::category_points_of_interest()
    }

    /// A category that captures stack traces and is disabled unless the
    /// program runs under the profiling tool. For now it carries the same text
    /// as [`OsLog::category_points_of_interest`].
    pub fn category_dynamic_stack_tracing() -> (category: CName)
        ensures
            category@ == points_of_interest(),
    {
        OsLog::category_points_of_interest()
    }

    /// Creates a logger. No handle is asked for until the logger is first used.
    pub fn new(subsystem: CName, category: CName) -> (log: OsLog)
        ensures
            log@ == OsLogView::new(subsystem@, category@),
    {
        OsLog { subsystem, category, latch: Latch::Unset }
    }

    /// Changes the category of a logger. The latch stays as it is: a handle that
    /// is already published remains in effect.
    pub fn with_category(self, category: CName) -> (log: OsLog)
        ensures
            log@ == self@.with_category(category@),
    {
        OsLog { subsystem: self.subsystem, category, latch: self.latch }
    }

    /// Asks for the handle.
    ///
    /// The first caller is told to create it, with the logger's subsystem and
    /// category; callers that arrive before it is published are told to wait;
    /// every caller after that is given the published handle.
    pub fn get(&mut self) -> (step: Resolution<'_>)
        ensures
            final(self)@ == old(self)@.arrive(),
            step@ == old(self)@.resolution(),
    {
        match self.latch {
            Latch::Unset => {
                self.latch = Latch::Initializing;
                Resolution::Create { subsystem: &self.subsystem, category: &self.category }
            },
            Latch::Initializing => Resolution::Wait,
            Latch::Ready(h) => Resolution::Ready(h),
        }
    }

    /// Offers `handle` as the logger's handle.
    ///
    /// The offer is accepted from the caller that was told to create the
    /// handle, and from nobody else: a published handle is never replaced.
    pub fn publish(&mut self, handle: usize) -> (accepted: bool)
        ensures
            final(self)@ == old(self)@.publish(handle),
            accepted == (old(self)@.latch is Initializing),
    {
        match self.latch {
            Latch::Initializing => {
                self.latch = Latch::Ready(handle);
                true
            },
            _ => false,
        }
    }

    /// The subsystem that the logger was created for.
    pub fn subsystem(&self) -> (name: &CName)
        ensures
            name@ == self@.subsystem,
    {
        &self.subsystem
    }

    /// The category that the handle is, or will be, created for.
    pub fn category(&self) -> (name: &CName)
        ensures
            name@ == self@.category,
    {
        &self.category
    }

    /// The published handle; none before publication.
    pub fn handle(&self) -> (h: Option<usize>)
        ensures
            h == self@.latch.handle(),
    {
        match self.latch {
            Latch::Ready(h) => Some(h),
            _ => None,
        }
    }

    fn marker<'a>(&self, kind: SignpostType, id: u64, name: &'a CName, enabled: bool) -> (m:
        Option<Marker<'a>>)
        ensures
            view_of(m) == self@.marker(kind, id, name@, enabled),
    {
        if !enabled {
            return None;
        }
        match self.latch {
            Latch::Ready(h) => Some(Marker::new(h, kind, id, name)),
            _ => None,
        }
    }

    /// Emits an event: a single point in time named `name`.
    ///
    /// `enabled` is the facility's answer to the enablement check for this
    /// logger's handle. While it is false nothing is handed out and no other
    /// work is done.
    pub fn emit_event<'a>(&self, id: u64, name: &'a CName, enabled: bool) -> (m: Option<
        Marker<'a>,
    >)
        requires
            self@.latch is Ready,
            !is_reserved_id(id),
        ensures
            view_of(m) == self@.emit_event(id, name@, enabled),
            !enabled ==> m is None,
    {
        self.marker(SignpostType::Event, id, name, enabled)
    }

    /// Begins an interval named `name`.
    ///
    /// Hands out the begin marker, if the facility is enabled, and in every
    /// case the guard that ends the interval.
    pub fn begin_interval<'a>(&'a self, id: u64, name: &'a CName, enabled: bool) -> (r: (
        Option<Marker<'a>>,
        SignpostInterval<'a>,
    ))
        requires
            self@.latch is Ready,
            !is_reserved_id(id),
        ensures
            (view_of(r.0), r.1@) == self@.begin_interval(id, name@, enabled),
            !enabled ==> r.0 is None,
    {
        let begin = self.marker(SignpostType::IntervalBegin, id, name, enabled);
        (begin, SignpostInterval { log: self, id, name, ended: false })
    }
}

/// Scope guard of an interval: ending it hands out the end marker that pairs
/// with the begin marker, once.
#[derive(Debug)]
pub struct SignpostInterval<'a> {
    log: &'a OsLog,
    id: u64,
    name: &'a CName,
    ended: bool,
}

impl<'a> View for SignpostInterval<'a> {
    type V = IntervalView;

    closed spec fn view(&self) -> IntervalView {
        IntervalView { log: self.log@, id: self.id, name: self.name@, ended: self.ended }
    }
}

impl<'a> SignpostInterval<'a> {
    #[verifier::type_invariant]
    spec fn inv(self) -> bool {
        self@.well_formed()
    }

    /// The handle of the logger that the interval began on: the one to ask
    /// the facility about before the interval is ended.
    pub fn handle(&self) -> (h: usize)
        ensures
            self@.log.latch == Latch::Ready(h),
    {
        proof {
            use_type_invariant(self);
        }
        match self.log.handle() {
            Some(h) => h,
            None => unreached(),
        }
    }

    /// The identifier that pairs the interval's begin and end.
    pub fn id(&self) -> (id: u64)
        ensures
            id == self@.id,
            !is_reserved_id(id),
    {
        proof {
            use_type_invariant(self);
        }
        self.id
    }

    /// The interval's name.
    pub fn name(&self) -> (name: &'a CName)
        ensures
            name@ == self@.name,
    {
        self.name
    }

    /// Whether the interval was ended already.
    pub fn ended(&self) -> (ended: bool)
        ensures
            ended == self@.ended,
    {
        self.ended
    }

    /// Ends the interval.
    ///
    /// `enabled` is the facility's answer at this moment, asked anew: it may
    /// differ from the answer when the interval began. The first call hands
    /// out the end marker if the facility is enabled; every later call hands
    /// out nothing.
    pub fn end(&mut self, enabled: bool) -> (m: Option<Marker<'a>>)
        ensures
            (view_of(m), final(self)@) == old(self)@.end(enabled),
            !enabled || old(self)@.ended ==> m is None,
    {
        proof {
            use_type_invariant(&*self);
        }
        if self.ended {
            return None;
        }
        self.ended = true;
        self.log.marker(SignpostType::IntervalEnd, self.id, self.name, enabled)
    }
}

} // verus!
