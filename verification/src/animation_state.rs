use vstd::prelude::*;

verus! {

/// Frames each machine waits before its lever is pulled, per position in the row of machines.
pub const INITIAL_WAIT_FRAME: usize = 10;

/// Frames the reels spin.
pub const SPINNING_FRAME_TIME: usize = 35;

/// Frames a machine rests in its final state.
pub const STOPPED_FRAME_TIME: usize = 5;

/// Frames each winning line is shown for.
pub const FRAMES_PER_PAYLINE: usize = 25;

/// The fewest frames the winnings are shown for.
pub const MIN_SHOW_WINNINGS_FRAMES: usize = 10;

/// Frames the lever takes to be pulled.
pub const LEVER_PULL_FRAME_TIME: usize = 5;

/// Frames the winnings are shown for, given the largest number of winning lines of any machine.
pub open spec fn spec_show_winnings_frames(max_paylines: nat) -> int {
    let dynamic = FRAMES_PER_PAYLINE * max_paylines;
    if dynamic < MIN_SHOW_WINNINGS_FRAMES {
        MIN_SHOW_WINNINGS_FRAMES as int
    } else {
        dynamic
    }
}

/// Frames of the whole animation of `total_machines` machines.
pub open spec fn spec_total_animation_frames(total_machines: nat, max_paylines: nat) -> int {
    total_machines * INITIAL_WAIT_FRAME + LEVER_PULL_FRAME_TIME + SPINNING_FRAME_TIME
        + spec_show_winnings_frames(max_paylines) + STOPPED_FRAME_TIME
}

pub fn show_winnings_frames(max_paylines: usize) -> (frames: usize)
    requires
        FRAMES_PER_PAYLINE * max_paylines <= usize::MAX,
    ensures
        frames == spec_show_winnings_frames(max_paylines as nat),
{
    let dynamic = FRAMES_PER_PAYLINE * max_paylines;
    if dynamic < MIN_SHOW_WINNINGS_FRAMES {
        MIN_SHOW_WINNINGS_FRAMES
    } else {
        dynamic
    }
}

/// Total frames for the entire animation across all machines.
/// Earlier machines absorb the stagger into a longer ShowWinnings phase
/// so all machines exit ShowWinnings at the same global frame.
pub fn total_animation_frames(total_machines: usize, max_paylines: usize) -> (frames: usize)
    requires
        FRAMES_PER_PAYLINE * max_paylines <= usize::MAX,
        spec_total_animation_frames(total_machines as nat, max_paylines as nat) <= usize::MAX,
    ensures
        frames == spec_total_animation_frames(total_machines as nat, max_paylines as nat),
{
    (total_machines * INITIAL_WAIT_FRAME) + LEVER_PULL_FRAME_TIME + SPINNING_FRAME_TIME
        + show_winnings_frames(max_paylines) + STOPPED_FRAME_TIME
}

/// The phases a machine's animation goes through, in order.
#[derive(Clone, Copy, Debug, PartialEq, Eq, Structural)]
pub enum AnimationType {
    Wait,
    LeverPull,
    Spinning,
    ShowWinnings,
    Stopped,
}

/// State representing current animation
/// Parameter is frames remaining
#[derive(Clone, Copy, Debug)]
pub struct AnimationState {
    pub animation_type: AnimationType,
    pub frames_remaining: usize,
    pub show_winnings_duration: usize,
}

/// The phase that follows the current one, and how many frames it lasts.
pub open spec fn spec_next_state(s: AnimationState) -> (AnimationType, usize) {
    match s.animation_type {
        AnimationType::Wait => (AnimationType::LeverPull, LEVER_PULL_FRAME_TIME),
        AnimationType::LeverPull => (AnimationType::Spinning, SPINNING_FRAME_TIME),
        AnimationType::Spinning => (AnimationType::ShowWinnings, s.show_winnings_duration),
        AnimationType::ShowWinnings => (AnimationType::Stopped, STOPPED_FRAME_TIME),
        AnimationType::Stopped => (AnimationType::Stopped, STOPPED_FRAME_TIME),
    }
}

/// One frame of animation: count down, and move to the next phase once the count is spent.
pub open spec fn spec_tick(s: AnimationState) -> AnimationState {
    if s.frames_remaining == 0 {
        AnimationState {
            animation_type: spec_next_state(s).0,
            frames_remaining: spec_next_state(s).1,
            show_winnings_duration: s.show_winnings_duration,
        }
    } else {
        AnimationState {
            animation_type: s.animation_type,
            frames_remaining: (s.frames_remaining - 1) as usize,
            show_winnings_duration: s.show_winnings_duration,
        }
    }
}

/// The state after `k` frames.
pub open spec fn spec_ticks(s: AnimationState, k: nat) -> AnimationState
    decreases k,
{
    if k == 0 {
        s
    } else {
        spec_ticks(spec_tick(s), (k - 1) as nat)
    }
}

/// The state a machine starts in: the `machine_num`-th of `total_machines`, where the most
/// winning lines of any machine is `max_paylines`.
pub open spec fn spec_initial_state(machine_num: nat, total_machines: nat, max_paylines: nat) -> AnimationState {
    AnimationState {
        animation_type: AnimationType::Wait,
        frames_remaining: ((machine_num + 1) * INITIAL_WAIT_FRAME) as usize,
        show_winnings_duration: (spec_show_winnings_frames(max_paylines) + (total_machines - 1
            - machine_num) * INITIAL_WAIT_FRAME) as usize,
    }
}

/// The arithmetic of a machine's initial state fits in `usize`.
pub open spec fn initial_state_fits(machine_num: nat, total_machines: nat, max_paylines: nat) -> bool {
    &&& machine_num < total_machines
    &&& FRAMES_PER_PAYLINE * max_paylines <= usize::MAX
    &&& (machine_num + 1) * INITIAL_WAIT_FRAME <= usize::MAX
    &&& spec_show_winnings_frames(max_paylines) + (total_machines - 1 - machine_num)
        * INITIAL_WAIT_FRAME <= usize::MAX
}

/// How many frames remain until a state reaches the `Stopped` phase.
pub open spec fn frames_until_stopped(s: AnimationState) -> int {
    let fr = s.frames_remaining as int;
    let d = s.show_winnings_duration as int;
    match s.animation_type {
        AnimationType::Wait => fr + 1 + (LEVER_PULL_FRAME_TIME + 1) + (SPINNING_FRAME_TIME + 1) + d
            + 1,
        AnimationType::LeverPull => fr + 1 + (SPINNING_FRAME_TIME + 1) + d + 1,
        AnimationType::Spinning => fr + 1 + d + 1,
        AnimationType::ShowWinnings => fr + 1,
        AnimationType::Stopped => 0,
    }
}

/// The frame at which every one of `total_machines` machines leaves its winnings and stops.
pub open spec fn spec_stop_frame(total_machines: nat, max_paylines: nat) -> int {
    total_machines * INITIAL_WAIT_FRAME + (LEVER_PULL_FRAME_TIME + 1) + (SPINNING_FRAME_TIME + 1)
        + spec_show_winnings_frames(max_paylines) + 2
}

impl AnimationState {
    pub fn new(machine_num: usize, total_machines: usize, max_paylines: usize) -> (s: Self)
        requires
            initial_state_fits(machine_num as nat, total_machines as nat, max_paylines as nat),
        ensures
            s == spec_initial_state(machine_num as nat, total_machines as nat, max_paylines as nat),
    {
        // Earlier machines enter ShowWinnings sooner due to the staggered start.
        // They get extra ShowWinnings frames so all machines exit ShowWinnings
        // at the same global frame. The last machine gets the base duration.
        let show_winnings_duration = show_winnings_frames(max_paylines) + (total_machines - 1
            - machine_num) * INITIAL_WAIT_FRAME;

        Self {
            animation_type: AnimationType::Wait,
            frames_remaining: (machine_num + 1) * INITIAL_WAIT_FRAME,
            show_winnings_duration,
        }
    }

    pub fn tick(&mut self)
        ensures
            *final(self) == spec_tick(*old(self)),
    {
        if self.frames_remaining == 0 {
            let (animation_type, new_frames_remaining) = self.get_next_state();
            self.animation_type = animation_type;
            self.frames_remaining = new_frames_remaining;
        } else {
            self.frames_remaining -= 1;
        }
    }

    fn get_next_state(&self) -> (next: (AnimationType, usize))
        ensures
            next == spec_next_state(*self),
    {
        match self.animation_type {
            AnimationType::Wait => (AnimationType::LeverPull, LEVER_PULL_FRAME_TIME),
            AnimationType::LeverPull => (AnimationType::Spinning, SPINNING_FRAME_TIME),
            AnimationType::Spinning => (AnimationType::ShowWinnings, self.show_winnings_duration),
            AnimationType::ShowWinnings => (AnimationType::Stopped, STOPPED_FRAME_TIME),
            AnimationType::Stopped => (AnimationType::Stopped, STOPPED_FRAME_TIME),
        }
    }
}

/// Once stopped, a machine stays stopped; before that, each frame brings it one frame
/// closer: after `k` frames a state is stopped exactly when `k` reaches the frames it had
/// left until stopping.
pub proof fn lemma_stopped_after(s: AnimationState, k: nat)
    ensures
        (spec_ticks(s, k).animation_type == AnimationType::Stopped) <==> k >= frames_until_stopped(s),
    decreases k,
{
    if k > 0 {
        let t = spec_tick(s);
        lemma_stopped_after(t, (k - 1) as nat);
        if s.animation_type != AnimationType::Stopped {
            assert(frames_until_stopped(t) + 1 == frames_until_stopped(s));
        } else {
            assert(frames_until_stopped(t) == 0);
        }
    }
}

/// All machines leave the winnings and stop at the same frame: the `machine_num`-th of
/// `total_machines` machines is stopped after `k` frames exactly when `k` reaches
/// `spec_stop_frame`, which does not depend on `machine_num`.
pub proof fn lemma_machines_stop_together(
    machine_num: nat,
    total_machines: nat,
    max_paylines: nat,
    k: nat,
)
    requires
        initial_state_fits(machine_num, total_machines, max_paylines),
    ensures
        (spec_ticks(spec_initial_state(machine_num, total_machines, max_paylines), k).animation_type
            == AnimationType::Stopped) <==> k >= spec_stop_frame(total_machines, max_paylines),
{
    let s = spec_initial_state(machine_num, total_machines, max_paylines);
    lemma_stopped_after(s, k);
    assert(frames_until_stopped(s) == spec_stop_frame(total_machines, max_paylines));
}

/// The animation lasts exactly long enough for every machine to be stopped when its last
/// frame is drawn: the last frame is drawn after `total_animation_frames - 1` frames have
/// passed, which is the frame at which all machines stop.
pub proof fn lemma_last_frame_shows_all_stopped(
    machine_num: nat,
    total_machines: nat,
    max_paylines: nat,
)
    requires
        initial_state_fits(machine_num, total_machines, max_paylines),
    ensures
        spec_total_animation_frames(total_machines, max_paylines) == spec_stop_frame(
            total_machines,
            max_paylines,
        ) + 1,
        spec_ticks(
            spec_initial_state(machine_num, total_machines, max_paylines),
            (spec_total_animation_frames(total_machines, max_paylines) - 1) as nat,
        ).animation_type == AnimationType::Stopped,
        spec_ticks(
            spec_initial_state(machine_num, total_machines, max_paylines),
            (spec_total_animation_frames(total_machines, max_paylines) - 2) as nat,
        ).animation_type != AnimationType::Stopped,
{
    lemma_machines_stop_together(
        machine_num,
        total_machines,
        max_paylines,
        (spec_total_animation_frames(total_machines, max_paylines) - 1) as nat,
    );
    lemma_machines_stop_together(
        machine_num,
        total_machines,
        max_paylines,
        (spec_total_animation_frames(total_machines, max_paylines) - 2) as nat,
    );
}

} // verus!
