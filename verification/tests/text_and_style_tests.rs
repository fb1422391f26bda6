use rspin::animation_state::{AnimationState, AnimationType};
use rspin::display::{cell_style, info_line, CellStyle, HighlightColor};
use rspin::machine::Machine;
use rspin::paylines::{check_payline, Paylines};
use rspin::symbols::Symbols;
use rspin::text::{append_decimal, append_signed};

use Symbols::{Circle, Jackpot, Seven, Wild};

fn state(animation_type: AnimationType, frames_remaining: usize, dur: usize) -> AnimationState {
    AnimationState { animation_type, frames_remaining, show_winnings_duration: dur }
}

#[test]
fn decimal_text() {
    let mut s = String::new();
    append_decimal(&mut s, 0);
    append_decimal(&mut s, 907);
    assert_eq!(s, "0907");
    let mut t = String::from("x");
    append_signed(&mut t, -42);
    append_signed(&mut t, i64::MIN);
    assert_eq!(t, "x-42-9223372036854775808");
    assert_eq!(Machine::new(i32::MIN).name, "Machine -2147483648");
}

#[test]
fn payline_order_does_not_matter() {
    let rows = vec![vec![Wild, Seven, Circle], vec![Seven, Wild, Seven]];
    let g: Vec<&[Symbols]> = rows.iter().map(|r| r.as_slice()).collect();
    let a = [(0, 0), (0, 1), (1, 0), (1, 2)];
    let b = [(1, 2), (0, 0), (1, 0), (0, 1)];
    assert_eq!(check_payline(&g, &a), Some(Seven));
    assert_eq!(check_payline(&g, &b), Some(Seven));
    let c = [(0, 2), (0, 1)];
    let d = [(0, 1), (0, 2)];
    assert_eq!(check_payline(&g, &c), None);
    assert_eq!(check_payline(&g, &d), None);
    assert_eq!(check_payline(&g, &[(0, 0), (1, 1)]), None);
}

#[test]
fn set_position_moves_the_middle_row() {
    let mut machine = Machine::new(1);
    let reel = &mut machine.reels[3];
    reel.set_position(7);
    assert_eq!(reel.position_index(), 7);
    assert_eq!(reel.visible_at(7), {
        let r = &machine.reels[3];
        (r.visible_at(6).1, r.visible_at(7).1, r.visible_at(8).1)
    });
}

fn winning_machine() -> Machine {
    let mut machine = Machine::new(1);
    machine.paylines = vec![
        Paylines::HorSM(Jackpot, vec![(1, 1), (1, 2), (1, 3)]),
        Paylines::Eye(Seven, vec![(1, 0), (0, 1)]),
    ];
    machine
}

#[test]
fn cells_are_styled_by_phase_and_line() {
    let machine = winning_machine();
    assert_eq!(cell_style(&machine, &state(AnimationType::Spinning, 3, 50), 1, 1), CellStyle::Plain);
    assert_eq!(cell_style(&machine, &state(AnimationType::Stopped, 3, 50), 1, 1), CellStyle::Dimmed);
    // first line while 50 - 40 = 10 frames have passed
    let first = state(AnimationType::ShowWinnings, 40, 50);
    assert_eq!(cell_style(&machine, &first, 1, 2), CellStyle::Highlighted(HighlightColor::Yellow));
    assert_eq!(cell_style(&machine, &first, 0, 1), CellStyle::Dimmed);
    // second line once 25 frames have passed
    let second = state(AnimationType::ShowWinnings, 20, 50);
    assert_eq!(cell_style(&machine, &second, 0, 1), CellStyle::Highlighted(HighlightColor::White));
    assert_eq!(cell_style(&machine, &second, 1, 2), CellStyle::Dimmed);
    let empty = Machine::new(2);
    assert_eq!(cell_style(&empty, &first, 1, 2), CellStyle::Dimmed);
}

#[test]
fn info_lines() {
    let machine = winning_machine();
    assert_eq!(
        info_line(&machine, &state(AnimationType::ShowWinnings, 40, 50), 10),
        Some("     HorSM (!) - 70 credits".to_string())
    );
    assert_eq!(
        info_line(&machine, &state(AnimationType::ShowWinnings, 20, 50), 10),
        Some("     Eye (7) - 200 credits".to_string())
    );
    assert_eq!(
        info_line(&machine, &state(AnimationType::Stopped, 2, 50), 10),
        Some("     2 lines paid 270 credits".to_string())
    );
    assert_eq!(
        info_line(&machine, &state(AnimationType::Stopped, 2, 50), -1),
        Some("     2 lines paid -27 credits".to_string())
    );
    assert_eq!(
        info_line(&Machine::new(2), &state(AnimationType::ShowWinnings, 2, 50), 10),
        Some("     0 lines paid 0 credits".to_string())
    );
    assert_eq!(info_line(&machine, &state(AnimationType::Wait, 2, 50), 10), Some(String::new()));
    assert_eq!(info_line(&machine, &state(AnimationType::Stopped, 2, 50), i32::MAX), None);
}
