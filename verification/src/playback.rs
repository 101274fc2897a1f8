//! The playback plan: what the scheduler writes, and how long it sleeps,
//! at each step.
//!
//! Playback is a straight line: set up the display mode, then for each
//! frame home the cursor and write the whole blob as one piece, flushing
//! and sleeping the frame interval after it, then restore the display
//! mode. Writing a frame as one blob avoids partial-frame tearing, and
//! homing instead of clearing avoids a full-screen flash. The fixed sleep
//! does not compensate for write latency, so real playback drifts below
//! the target rate under load; that is a documented limit of the design,
//! not something this plan hides. The unverified shell performs the steps
//! in order, and restores the terminal even when the loop is cut short.

use vstd::prelude::*;

verus! {

/// One playback step: write `text` to the terminal in one write, flush,
/// then sleep `sleep_micros` microseconds.
pub struct Step {
    pub text: String,
    pub sleep_micros: u64,
}

/// The control sequence issued before the first frame: clear the screen
/// and home the cursor, hide the cursor, disable line wrapping.
pub open spec fn setup_text() -> Seq<char> {
    "\x1b[2J\x1b[H\x1b[?25l\x1b[?7l"@
}

/// The cursor-home sequence issued before each frame.
pub open spec fn home_text() -> Seq<char> {
    "\x1b[H"@
}

/// The restoring sequence issued after the last frame: re-enable line
/// wrapping, show the cursor, clear the screen and home the cursor.
pub open spec fn restore_text() -> Seq<char> {
    "\x1b[?7h\x1b[?25h\x1b[H\x1b[2J"@
}

/// The playback protocol: one setup step, one step per frame in order —
/// the cursor homed, the whole blob, the frame interval — and one
/// restoring step, whatever the frames were.
pub open spec fn plan_ok(plan: Seq<Step>, blobs: Seq<String>, interval: u64) -> bool {
    &&& plan.len() == blobs.len() + 2
    &&& plan[0].text@ == setup_text()
    &&& plan[0].sleep_micros == 0
    &&& forall|i: int|
        0 <= i < blobs.len() ==> plan[i + 1].text@ == home_text() + #[trigger] blobs[i]@
    &&& forall|i: int| 0 <= i < blobs.len() ==> #[trigger] plan[i + 1].sleep_micros == interval
    &&& plan[plan.len() - 1].text@ == restore_text()
    &&& plan[plan.len() - 1].sleep_micros == 0
}

/// Lays out a whole run over the given frame blobs, paced at
/// `interval_micros` microseconds per frame.
pub fn playback_plan(blobs: &Vec<String>, interval_micros: u64) -> (plan: Vec<Step>)
    ensures
        plan_ok(plan@, blobs@, interval_micros),
{
    let mut plan: Vec<Step> = Vec::new();
    plan.push(Step { text: String::from_str("\x1b[2J\x1b[H\x1b[?25l\x1b[?7l"), sleep_micros: 0 });
    let mut i: usize = 0;
    while i < blobs.len()
        invariant
            i <= blobs@.len(),
            plan@.len() == i + 1,
            plan@[0].text@ == setup_text(),
            plan@[0].sleep_micros == 0,
            forall|k: int|
                0 <= k < i ==> plan@[k + 1].text@ == home_text() + #[trigger] blobs@[k]@,
            forall|k: int| 0 <= k < i ==> #[trigger] plan@[k + 1].sleep_micros == interval_micros,
        decreases blobs@.len() - i,
    {
        let mut t = String::from_str("\x1b[H");
        t.append(blobs[i].as_str());
        plan.push(Step { text: t, sleep_micros: interval_micros });
        i = i + 1;
    }
    plan.push(Step { text: String::from_str("\x1b[?7h\x1b[?25h\x1b[H\x1b[2J"), sleep_micros: 0 });
    plan
}

} // verus!
