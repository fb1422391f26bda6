use rspin::animation_state::{
    show_winnings_frames, total_animation_frames, AnimationState, AnimationType,
};
use rspin::display::{all_stopped, initial_states, tick_all};

#[test]
fn winnings_frames_have_a_floor() {
    assert_eq!(show_winnings_frames(0), 10);
    assert_eq!(show_winnings_frames(1), 25);
    assert_eq!(show_winnings_frames(3), 75);
}

#[test]
fn total_frames_formula() {
    // 2 * 10 + 5 + 35 + 25 + 5
    assert_eq!(total_animation_frames(2, 1), 90);
    // 1 * 10 + 5 + 35 + 10 + 5
    assert_eq!(total_animation_frames(1, 0), 65);
}

#[test]
fn new_state_staggers_the_start() {
    let first = AnimationState::new(0, 3, 2);
    assert_eq!(first.animation_type, AnimationType::Wait);
    assert_eq!(first.frames_remaining, 10);
    assert_eq!(first.show_winnings_duration, 50 + 20);
    let last = AnimationState::new(2, 3, 2);
    assert_eq!(last.frames_remaining, 30);
    assert_eq!(last.show_winnings_duration, 50);
}

#[test]
fn tick_counts_down_then_moves_on() {
    let mut s = AnimationState::new(0, 1, 0);
    let mut phases = vec![(s.animation_type, s.frames_remaining)];
    for _ in 0..70 {
        s.tick();
        if phases.last().unwrap().0 != s.animation_type {
            phases.push((s.animation_type, s.frames_remaining));
        }
    }
    assert_eq!(
        phases,
        vec![
            (AnimationType::Wait, 10),
            (AnimationType::LeverPull, 5),
            (AnimationType::Spinning, 35),
            (AnimationType::ShowWinnings, 10),
            (AnimationType::Stopped, 5),
        ]
    );
    let mut stopped = AnimationState {
        animation_type: AnimationType::Stopped,
        frames_remaining: 0,
        show_winnings_duration: 3,
    };
    stopped.tick();
    assert_eq!(stopped.animation_type, AnimationType::Stopped);
    assert_eq!(stopped.frames_remaining, 5);
}

/// The frame (number of ticks) at which each machine leaves ShowWinnings.
fn exit_frames(total: usize, max_paylines: usize) -> Vec<usize> {
    let mut states = initial_states(total, max_paylines);
    let mut exits = vec![None; total];
    for k in 1..1000 {
        tick_all(&mut states);
        for (i, s) in states.iter().enumerate() {
            if exits[i].is_none() && s.animation_type == AnimationType::Stopped {
                exits[i] = Some(k);
            }
        }
    }
    exits.into_iter().map(|e| e.unwrap()).collect()
}

#[test]
fn all_machines_leave_winnings_together() {
    for total in 1..6 {
        for max_paylines in 0..4 {
            let exits = exit_frames(total, max_paylines);
            assert!(exits.iter().all(|e| *e == exits[0]));
            // the last frame drawn is drawn after total - 1 ticks
            assert_eq!(exits[0], total_animation_frames(total, max_paylines) - 1);
        }
    }
}

#[test]
fn all_stopped_only_at_the_end() {
    let total = 3;
    let mut states = initial_states(total, 2);
    let frames = total_animation_frames(total, 2);
    for k in 0..frames {
        assert!(!all_stopped(&states) || k == frames - 1);
        tick_all(&mut states);
    }
    assert!(all_stopped(&states));
    assert!(all_stopped(&[]));
}
