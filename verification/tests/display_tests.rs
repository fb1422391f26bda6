use rspin::animation_state::{AnimationState, AnimationType};
use rspin::database::Database;
use rspin::display::{
    current_payline_index, lever_for, lever_frame, lever_suffix, max_paylines, rows_for_frame,
    stage_lines, winning_color, HighlightColor,
};
use rspin::machine::Machine;
use rspin::paylines::Paylines;
use rspin::symbols::Symbols;

fn state(animation_type: AnimationType, frames_remaining: usize, dur: usize) -> AnimationState {
    AnimationState { animation_type, frames_remaining, show_winnings_duration: dur }
}

#[test]
fn lever_pull_frames() {
    let drawn: Vec<[&str; 3]> =
        (0..5).map(|f| [lever_suffix(f, 0), lever_suffix(f, 1), lever_suffix(f, 2)]).collect();
    assert_eq!(
        drawn,
        vec![
            [" O", "  ", "  "],
            [" |", " O", "  "],
            [" |", " |", " O"],
            [" |", " O", "  "],
            [" O", "  ", "  "],
        ]
    );
    assert_eq!(lever_suffix(7, 0), "  ");
    assert_eq!(lever_frame(4), 0);
    assert_eq!(lever_frame(9), 0);
    assert_eq!(lever_frame(1), 3);
    assert_eq!(lever_frame(0), 4);
}

#[test]
fn lever_rests_up_outside_the_pull() {
    for t in [AnimationType::Wait, AnimationType::Spinning, AnimationType::Stopped] {
        let s = state(t, 2, 0);
        assert_eq!(lever_for(&s, 0), " O");
        assert_eq!(lever_for(&s, 1), "  ");
        assert_eq!(lever_for(&s, 2), "  ");
    }
    let pulling = state(AnimationType::LeverPull, 2, 0);
    assert_eq!(lever_for(&pulling, 2), " O");
}

#[test]
fn winning_lines_take_turns() {
    let s = state(AnimationType::ShowWinnings, 75, 75);
    assert_eq!(current_payline_index(&s, 3), 0);
    let s = state(AnimationType::ShowWinnings, 50, 75);
    assert_eq!(current_payline_index(&s, 3), 1);
    let s = state(AnimationType::ShowWinnings, 0, 75);
    assert_eq!(current_payline_index(&s, 3), 0);
    let s = state(AnimationType::ShowWinnings, 100, 75);
    assert_eq!(current_payline_index(&s, 2), 0);
}

#[test]
fn each_line_has_its_colour() {
    assert_eq!(winning_color(&Paylines::HorSM(Symbols::Circle, vec![])), HighlightColor::Yellow);
    assert_eq!(winning_color(&Paylines::Zag(Symbols::Circle, vec![])), HighlightColor::Red);
    assert_eq!(winning_color(&Paylines::Eye(Symbols::Circle, vec![])), HighlightColor::White);
}

#[test]
fn stage_size() {
    assert_eq!(stage_lines(1), 11);
    assert_eq!(stage_lines(3), 27);
}

#[test]
fn most_lines_of_any_machine() {
    let mut machines = Machine::create_n_machines(3);
    assert_eq!(max_paylines(&machines), 0);
    machines[1].paylines = vec![
        Paylines::HorSM(Symbols::Circle, vec![]),
        Paylines::Eye(Symbols::Circle, vec![]),
    ];
    machines[2].paylines = vec![Paylines::HorSM(Symbols::Circle, vec![])];
    assert_eq!(max_paylines(&machines), 2);
    assert_eq!(max_paylines(&[]), 0);
}

#[test]
fn rows_drawn_in_each_phase() {
    let mut machine = Machine::new(1);
    machine.spin();
    let at = |mid: &dyn Fn(usize) -> usize| -> Vec<Vec<Symbols>> {
        let mut rows = vec![vec![], vec![], vec![]];
        for (c, reel) in machine.reels.iter().enumerate() {
            let (a, m, b) = reel.visible_at(mid(c));
            rows[0].push(a);
            rows[1].push(m);
            rows[2].push(b);
        }
        rows
    };
    let positions: Vec<usize> = machine.reels.iter().map(|r| r.position_index()).collect();
    assert_eq!(rows_for_frame(&machine, &state(AnimationType::Wait, 3, 0), 7), at(&|_| 0));
    assert_eq!(rows_for_frame(&machine, &state(AnimationType::LeverPull, 3, 0), 7), at(&|_| 0));
    assert_eq!(rows_for_frame(&machine, &state(AnimationType::Spinning, 3, 0), 47), at(&|_| 7));
    assert_eq!(
        rows_for_frame(&machine, &state(AnimationType::Stopped, 3, 0), 47),
        at(&|c| positions[c])
    );
    assert_eq!(
        rows_for_frame(&machine, &state(AnimationType::ShowWinnings, 3, 0), 2),
        at(&|c| positions[c])
    );
}

#[test]
fn new_player_starts_with_a_thousand_credits() {
    let db = Database::default();
    assert_eq!(db.balance, 1000);
    assert_eq!(db.total_spins, 0);
}

#[test]
fn cheating_moves_the_balance() {
    let mut db = Database::default();
    db.add_credits(500);
    assert_eq!(db.balance, 1500);
    db.add_credits(-2000);
    assert_eq!(db.balance, -500);
    assert_eq!(db.total_spins, 0);
}

#[test]
fn a_play_takes_bet_times_count() {
    let mut db = Database::default();
    let total_bet = db.place_bets(5, 3);
    assert_eq!(total_bet, 15);
    assert_eq!(db.balance, 985);
    assert_eq!(db.total_spins, 3);
    db.add_credits(40);
    assert_eq!(db.balance, 1025);
}
