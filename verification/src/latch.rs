//! The one-shot latch that guards a logger's native handle, and what holds of
//! every sequence of calls on it.

use vstd::prelude::*;

verus! {

/// The one-shot latch of a logger's native handle.
///
/// A latch only ever moves forward: from `Unset` to `Initializing` when the
/// first caller arrives, and from `Initializing` to `Ready` when that caller
/// publishes the handle it created.
#[derive(Clone, Copy, Debug, PartialEq, Eq, Structural)]
pub enum Latch {
    /// Nobody has asked for the handle yet.
    Unset,
    /// One caller has been told to create the handle and has not published it.
    Initializing,
    /// The handle is published.
    Ready(usize),
}

impl Latch {
    /// The latch after one more caller has arrived.
    pub open spec fn arrive(self) -> Latch {
        match self {
            Latch::Unset => Latch::Initializing,
            g => g,
        }
    }

    /// The latch after a caller has offered `handle` for publication.
    pub open spec fn publish(self, handle: usize) -> Latch {
        match self {
            Latch::Initializing => Latch::Ready(handle),
            g => g,
        }
    }

    /// The published handle, if there is one.
    pub open spec fn handle(self) -> Option<usize> {
        match self {
            Latch::Ready(h) => Some(h),
            _ => None,
        }
    }
}

/// One call on a latch.
pub enum LatchCall {
    /// A caller asks for the handle.
    Get,
    /// A caller offers a handle for publication.
    Publish(usize),
}

/// The latch after the call `call`.
pub open spec fn step(latch: Latch, call: LatchCall) -> Latch {
    match call {
        LatchCall::Get => latch.arrive(),
        LatchCall::Publish(h) => latch.publish(h),
    }
}

/// The latch after the calls `calls`, made one after the other in any
/// interleaving of their callers.
pub open spec fn run(latch: Latch, calls: Seq<LatchCall>) -> Latch
    decreases calls.len(),
{
    if calls.len() == 0 {
        latch
    } else {
        step(run(latch, calls.drop_last()), calls.last())
    }
}

/// The latch as call number `i` of `calls` finds it, starting from an unused
/// logger.
pub open spec fn before(calls: Seq<LatchCall>, i: int) -> Latch {
    run(Latch::Unset, calls.take(i))
}

/// Whether call number `i` is told to create the handle.
pub open spec fn creates_at(calls: Seq<LatchCall>, i: int) -> bool {
    &&& 0 <= i < calls.len()
    &&& calls[i] is Get
    &&& before(calls, i) is Unset
}

/// Whether call number `i` is told to wait.
pub open spec fn waits_at(calls: Seq<LatchCall>, i: int) -> bool {
    &&& 0 <= i < calls.len()
    &&& calls[i] is Get
    &&& before(calls, i) is Initializing
}

/// Whether call number `i` is given the handle `handle`.
pub open spec fn observes_at(calls: Seq<LatchCall>, i: int, handle: usize) -> bool {
    &&& 0 <= i < calls.len()
    &&& calls[i] is Get
    &&& before(calls, i) == Latch::Ready(handle)
}

/// Whether call number `i` publishes the handle `handle`.
pub open spec fn publishes_at(calls: Seq<LatchCall>, i: int, handle: usize) -> bool {
    &&& 0 <= i < calls.len()
    &&& calls[i] == LatchCall::Publish(handle)
    &&& before(calls, i) is Initializing
}

proof fn lemma_before_next(calls: Seq<LatchCall>, i: int)
    requires
        0 <= i < calls.len(),
    ensures
        before(calls, i + 1) == step(before(calls, i), calls[i]),
{
    assert(calls.take(i + 1).drop_last() == calls.take(i));
}

/// A latch never moves back: once past `Unset` it stays past it, and a
/// published handle stays published.
proof fn lemma_forward(calls: Seq<LatchCall>, i: int, j: int)
    requires
        0 <= i <= j <= calls.len(),
    ensures
        before(calls, j) is Unset ==> before(calls, i) is Unset,
        before(calls, i) is Ready ==> before(calls, j) == before(calls, i),
    decreases j - i,
{
    if i < j {
        lemma_forward(calls, i, j - 1);
        lemma_before_next(calls, j - 1);
    }
}

/// A published handle stays: no call replaces or withdraws it.
pub proof fn lemma_published_stays(handle: usize, calls: Seq<LatchCall>)
    ensures
        run(Latch::Ready(handle), calls) == Latch::Ready(handle),
    decreases calls.len(),
{
    if calls.len() > 0 {
        lemma_published_stays(handle, calls.drop_last());
    }
}

/// Handle resolution is idempotent.
///
/// Take any sequence of calls on the latch of a fresh logger, by any number of
/// callers in any interleaving. Then:
/// - at most one call is told to create the handle, and the first call that
///   asks for the handle is;
/// - a caller is told to wait only while the handle is being created: after
///   the call that was told to create it, and before any offer is accepted;
/// - at most one offer is accepted for publication;
/// - every caller that is given a handle is given the handle of that one
///   accepted offer, which was made before;
/// - so any two callers that are given a handle are given the same one.
pub proof fn lemma_resolution_idempotent(calls: Seq<LatchCall>)
    ensures
        forall|i: int, j: int| creates_at(calls, i) && creates_at(calls, j) ==> i == j,
        forall|k: int|
            0 <= k < calls.len() && calls[k] is Get ==> exists|i: int|
                0 <= i <= k && #[trigger] creates_at(calls, i),
        forall|i: int| #[trigger]
            waits_at(calls, i) ==> exists|j: int| 0 <= j < i && #[trigger] creates_at(calls, j),
        forall|i: int, j: int, h: usize|
            waits_at(calls, i) && publishes_at(calls, j, h) ==> i < j,
        forall|i: int, j: int, a: usize, b: usize|
            publishes_at(calls, i, a) && publishes_at(calls, j, b) ==> i == j && a == b,
        forall|i: int, h: usize| #[trigger]
            observes_at(calls, i, h) ==> exists|j: int|
                0 <= j < i && #[trigger] publishes_at(calls, j, h),
        forall|i: int, j: int, a: usize, b: usize|
            observes_at(calls, i, a) && observes_at(calls, j, b) ==> a == b,
{
    assert forall|i: int, j: int| creates_at(calls, i) && creates_at(calls, j) implies i
        == j by {
        if i < j {
            lemma_before_next(calls, i);
            lemma_forward(calls, i + 1, j);
        } else if j < i {
            lemma_before_next(calls, j);
            lemma_forward(calls, j + 1, i);
        }
    }
    assert forall|k: int| 0 <= k < calls.len() && calls[k] is Get implies exists|i: int|
        0 <= i <= k && #[trigger] creates_at(calls, i) by {
        let i = lemma_first_get(calls, k);
        assert(creates_at(calls, i));
    }
    assert forall|i: int| #[trigger] waits_at(calls, i) implies exists|j: int|
        0 <= j < i && #[trigger] creates_at(calls, j) by {
        let k = lemma_left_unset(calls, i);
        let j = lemma_first_get(calls, k);
        assert(creates_at(calls, j));
    }
    assert forall|i: int, j: int, h: usize|
        waits_at(calls, i) && publishes_at(calls, j, h) implies i < j by {
        if j < i {
            lemma_before_next(calls, j);
            lemma_forward(calls, j + 1, i);
        }
    }
    assert forall|i: int, j: int, a: usize, b: usize|
        publishes_at(calls, i, a) && publishes_at(calls, j, b) implies i == j && a == b by {
        if i < j {
            lemma_before_next(calls, i);
            lemma_forward(calls, i + 1, j);
        } else if j < i {
            lemma_before_next(calls, j);
            lemma_forward(calls, j + 1, i);
        }
    }
    assert forall|i: int, h: usize| #[trigger] observes_at(calls, i, h) implies exists|j: int|
        0 <= j < i && #[trigger] publishes_at(calls, j, h) by {
        let j = lemma_published_before(calls, i, h);
        assert(publishes_at(calls, j, h));
    }
    assert forall|i: int, j: int, a: usize, b: usize|
        observes_at(calls, i, a) && observes_at(calls, j, b) implies a == b by {
        if i <= j {
            lemma_forward(calls, i, j);
        } else {
            lemma_forward(calls, j, i);
        }
    }
}

/// The first call that asks for the handle finds the latch unset.
proof fn lemma_first_get(calls: Seq<LatchCall>, k: int) -> (i: int)
    requires
        0 <= k < calls.len(),
        calls[k] is Get,
    ensures
        0 <= i <= k,
        creates_at(calls, i),
    decreases k,
{
    if before(calls, k) is Unset {
        k
    } else {
        let j = lemma_left_unset(calls, k);
        lemma_first_get(calls, j)
    }
}

/// A latch that is no longer unset was left so by an earlier call that asked
/// for the handle.
proof fn lemma_left_unset(calls: Seq<LatchCall>, k: int) -> (j: int)
    requires
        0 <= k <= calls.len(),
        !(before(calls, k) is Unset),
    ensures
        0 <= j < k,
        calls[j] is Get,
    decreases k,
{
    if k == 0 {
        assert(calls.take(0).len() == 0);
        0
    } else {
        lemma_before_next(calls, k - 1);
        if before(calls, k - 1) is Unset {
            k - 1
        } else {
            lemma_left_unset(calls, k - 1)
        }
    }
}

/// A published handle was offered by an earlier call that found the latch
/// initializing.
proof fn lemma_published_before(calls: Seq<LatchCall>, i: int, h: usize) -> (j: int)
    requires
        0 <= i <= calls.len(),
        before(calls, i) == Latch::Ready(h),
    ensures
        0 <= j < i,
        publishes_at(calls, j, h),
    decreases i,
{
    if i == 0 {
        assert(calls.take(0).len() == 0);
        0
    } else {
        lemma_before_next(calls, i - 1);
        if before(calls, i - 1) == Latch::Ready(h) {
            lemma_published_before(calls, i - 1, h)
        } else {
            i - 1
        }
    }
}

} // verus!
