//! The fixed-interval clock: frames add milliseconds, and a tick falls due
//! whenever the sum has passed the interval.

use vstd::prelude::*;

verus! {

/// Milliseconds between two ticks.
pub const ITERATION_TIME: i32 = 100;

/// The largest number of milliseconds that one frame may add.
pub const MAX_DELTA: i32 = 2147483547;

/// What one frame did to the clock.
#[derive(Clone, Copy, Debug, PartialEq, Eq)]
pub struct Beat {
    /// The milliseconds carried over to the next frame.
    pub time: i32,
    /// Whether a tick fell due in this frame.
    pub ticked: bool,
}

/// Whether a frame of `delta` milliseconds on a clock at `time` makes a tick
/// fall due.
pub open spec fn falls_due(time: int, delta: int) -> bool {
    time + delta > ITERATION_TIME
}

/// The clock after a frame of `delta` milliseconds: the sum, less every whole
/// interval in it if a tick fell due.
pub open spec fn carried(time: int, delta: int) -> int {
    if falls_due(time, delta) {
        (time + delta) % (ITERATION_TIME as int)
    } else {
        time + delta
    }
}

/// The number of ticks that fall due over a run of frames.
pub open spec fn ticks(time: int, deltas: Seq<int>) -> nat
    decreases deltas.len(),
{
    if deltas.len() == 0 {
        0
    } else {
        let rest = ticks(carried(time, deltas[0]), deltas.drop_first());
        if falls_due(time, deltas[0]) {
            1 + rest
        } else {
            rest
        }
    }
}

/// The clock after a run of frames.
pub open spec fn clock_after(time: int, deltas: Seq<int>) -> int
    decreases deltas.len(),
{
    if deltas.len() == 0 {
        time
    } else {
        clock_after(carried(time, deltas[0]), deltas.drop_first())
    }
}

/// The milliseconds that a run of frames adds up to.
pub open spec fn total(deltas: Seq<int>) -> int
    decreases deltas.len(),
{
    if deltas.len() == 0 {
        0
    } else {
        deltas[0] + total(deltas.drop_first())
    }
}

/// Adds one frame's milliseconds to the clock. A tick falls due when the sum
/// exceeds the interval; the clock then keeps the remainder, so that at most
/// one tick comes of a frame, however long it was.
pub fn advance(time: i32, delta: i32) -> (beat: Beat)
    requires
        0 <= time <= ITERATION_TIME,
        0 <= delta <= MAX_DELTA,
    ensures
        beat.ticked == falls_due(time as int, delta as int),
        beat.time == carried(time as int, delta as int),
        0 <= beat.time <= ITERATION_TIME,
{
    let sum: i32 = time + delta;
    if sum > ITERATION_TIME {
        Beat { time: sum % ITERATION_TIME, ticked: true }
    } else {
        Beat { time: sum, ticked: false }
    }
}

proof fn lemma_running(time: int, deltas: Seq<int>)
    requires
        0 <= time,
        forall|i: int| 0 <= i < deltas.len() ==> deltas[i] >= 0,
    ensures
        0 <= clock_after(time, deltas),
        0 <= total(deltas),
        ITERATION_TIME * ticks(time, deltas) + clock_after(time, deltas) <= time + total(deltas),
        ticks(time, deltas) >= 1 && ITERATION_TIME * ticks(time, deltas) + clock_after(time, deltas)
            == time + total(deltas) ==> clock_after(time, deltas) >= 1,
        ticks(time, deltas) == 0 ==> clock_after(time, deltas) == time + total(deltas),
    decreases deltas.len(),
{
    if deltas.len() > 0 {
        let rest = deltas.drop_first();
        assert forall|i: int| 0 <= i < rest.len() implies rest[i] >= 0 by {
            assert(rest[i] == deltas[i + 1]);
        }
        lemma_running(carried(time, deltas[0]), rest);
    }
}

/// Over any run of frames from a clock at rest whose milliseconds add up to
/// `k` intervals, at most `k` ticks fall due, and exactly `k` only when `k`
/// is zero: a tick needs the sum to exceed the interval, and whole intervals
/// beyond the first in one frame are dropped.
pub proof fn lemma_ticks_within_intervals(deltas: Seq<int>, k: int)
    requires
        forall|i: int| 0 <= i < deltas.len() ==> deltas[i] >= 0,
        total(deltas) == k * ITERATION_TIME,
    ensures
        ticks(0, deltas) <= k,
        ticks(0, deltas) == k <==> k == 0,
{
    lemma_running(0, deltas);
}

/// However a span of milliseconds is cut into frames, the intervals counted
/// by ticks and the time carried over never exceed the span.
pub proof fn lemma_ticks_bounded(time: int, deltas: Seq<int>)
    requires
        0 <= time,
        forall|i: int| 0 <= i < deltas.len() ==> deltas[i] >= 0,
    ensures
        ITERATION_TIME * ticks(time, deltas) + clock_after(time, deltas) <= time + total(deltas),
        0 <= clock_after(time, deltas),
{
    lemma_running(time, deltas);
}

} // verus!
