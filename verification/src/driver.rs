//! The driver lifecycle: the render, step, sleep loop runs strictly
//! sequentially, observes an external stop flag at the top of each
//! iteration, and clears the terminal only on the very first frame.

use vstd::prelude::*;

verus! {

/// Where the loop stands in its lifecycle: the very first frame clears
/// the terminal in refresh mode, every later frame draws over it.
#[derive(Clone, Copy, Debug, PartialEq, Eq, Structural)]
pub enum Phase {
    FirstFrame,
    Steady,
}

/// The loop's state: RUNNING (with its phase) until a stop request is
/// observed, STOPPING from then on.
#[derive(Clone, Copy, Debug, PartialEq, Eq, Structural)]
pub enum DriverState {
    Running(Phase),
    Stopping,
}

/// The decision taken at the top of one loop iteration: the state the
/// loop moves to, whether a full render+step+sleep frame runs, and
/// whether that frame is the first one.
#[derive(Clone, Copy, Debug, PartialEq, Eq, Structural)]
pub struct Tick {
    pub next: DriverState,
    pub run_frame: bool,
    pub first_frame: bool,
}

/// The decision rule: an observed stop request moves to STOPPING and
/// runs nothing; otherwise a running loop runs one frame and settles into
/// the steady phase; a stopped loop never runs again.
pub open spec fn advance_spec(state: DriverState, stop_requested: bool) -> Tick {
    if stop_requested {
        Tick { next: DriverState::Stopping, run_frame: false, first_frame: false }
    } else {
        match state {
            DriverState::Running(phase) => Tick {
                next: DriverState::Running(Phase::Steady),
                run_frame: true,
                first_frame: phase == Phase::FirstFrame,
            },
            DriverState::Stopping => Tick {
                next: DriverState::Stopping,
                run_frame: false,
                first_frame: false,
            },
        }
    }
}

/// Decides, from the loop state and the stop flag as observed at the top
/// of the iteration, whether a frame runs and what state follows.
pub fn advance(state: DriverState, stop_requested: bool) -> (t: Tick)
    ensures
        t == advance_spec(state, stop_requested),
{
    if stop_requested {
        Tick { next: DriverState::Stopping, run_frame: false, first_frame: false }
    } else {
        match state {
            DriverState::Running(phase) => Tick {
                next: DriverState::Running(Phase::Steady),
                run_frame: true,
                first_frame: match phase {
                    Phase::FirstFrame => true,
                    Phase::Steady => false,
                },
            },
            DriverState::Stopping => Tick {
                next: DriverState::Stopping,
                run_frame: false,
                first_frame: false,
            },
        }
    }
}

/// Once the stop flag is observed true, no iteration starts: that
/// observation runs no frame and moves the loop to STOPPING, and from
/// STOPPING no frame ever runs again, whatever the flag reads. So a flag
/// raised mid-iteration lets at most that one frame finish.
pub proof fn lemma_stop_flag_halts(state: DriverState, stop_requested: bool)
    ensures
        stop_requested ==> !advance_spec(state, stop_requested).run_frame && advance_spec(
            state,
            stop_requested,
        ).next == DriverState::Stopping,
        state == DriverState::Stopping ==> !advance_spec(state, stop_requested).run_frame
            && advance_spec(state, stop_requested).next == DriverState::Stopping,
{
}

} // verus!
