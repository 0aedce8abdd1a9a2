//! The sampling loop's decisions: what each tick does beyond reading
//! and rendering. The loop around it — read the counters, render the
//! rows, sleep, repeat — performs I/O and lives outside the library;
//! the decisions of when to reprint the header and when to stop are
//! pure functions of the loop state and are verified here.

use vstd::prelude::*;

verus! {

/// The sampling loop's state: how many ticks were rendered since the
/// header last appeared, and how many ticks have run in all.
#[derive(PartialEq, Eq, Structural, Clone, Copy, Debug)]
pub struct LoopState {
    pub ticks_since_header: u32,
    pub loops_done: u32,
}

impl LoopState {
    /// The state at the start of the run, just after the initial
    /// header.
    pub fn start() -> (r: LoopState)
        ensures
            r.ticks_since_header == 0,
            r.loops_done == 0,
    {
        LoopState { ticks_since_header: 0, loops_done: 0 }
    }
}

/// Decide one tick of the sampling loop: whether to reprint the header
/// before this tick's rows — exactly once every 20 rendered ticks,
/// however many rows each tick produces — whether the run is done after
/// it — after the configured repeat count, when one was given — and the
/// state the next tick starts from.
pub fn tick_decide(st: LoopState, count: Option<u32>) -> (r: (bool, bool, LoopState))
    requires
        st.ticks_since_header < 0xFFFF_FFFFu32,
        st.loops_done < 0xFFFF_FFFFu32,
    ensures
        r.0 <==> st.ticks_since_header == 19,
        r.1 <==> (count matches Some(c) && st.loops_done + 1 >= c),
        r.2.ticks_since_header == (if st.ticks_since_header == 19 {
            0u32
        } else {
            (st.ticks_since_header + 1) as u32
        }),
        r.2.loops_done == st.loops_done + 1,
{
    let header = st.ticks_since_header == 19;
    let ticks_since_header: u32 = if header {
        0
    } else {
        st.ticks_since_header + 1
    };
    let loops_done: u32 = st.loops_done + 1;
    let done = match count {
        Some(c) => loops_done >= c,
        None => false,
    };
    (header, done, LoopState { ticks_since_header, loops_done })
}

} // verus!
