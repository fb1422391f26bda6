use rspin::animation_state::{AnimationState, AnimationType};
use rspin::display::rows_for_frame;
use rspin::machine::{total_winnings, Machine};
use rspin::paylines::{
    check_above, check_above_sm, check_below, check_below_sm, check_eye, check_hor_sm,
    check_hor_xl, check_zag, check_zag_sm, check_zig, check_zig_sm, Paylines,
};
use rspin::symbols::{reel_strip, Symbols};

fn sorted(mut v: Vec<Symbols>) -> Vec<Symbols> {
    v.sort_by_key(|s| s.display_char());
    v
}

fn stopped() -> AnimationState {
    AnimationState {
        animation_type: AnimationType::Stopped,
        frames_remaining: 0,
        show_winnings_duration: 0,
    }
}

#[test]
fn machines_are_numbered_from_one() {
    let machines = Machine::create_n_machines(3);
    let names: Vec<&str> = machines.iter().map(|m| m.name.as_str()).collect();
    assert_eq!(names, vec!["Machine 1", "Machine 2", "Machine 3"]);
    assert!(machines.iter().all(|m| m.paylines.is_empty()));
}

#[test]
fn no_machines_for_zero_or_negative_count() {
    assert!(Machine::create_n_machines(0).is_empty());
    assert!(Machine::create_n_machines(-4).is_empty());
}

#[test]
fn machine_name_formats_number() {
    assert_eq!(Machine::new(12).name, "Machine 12");
    assert_eq!(Machine::new(-7).name, "Machine -7");
    assert_eq!(Machine::new(0).name, "Machine 0");
}

#[test]
fn new_reels_are_shuffled_strips_at_the_start() {
    let machine = Machine::new(1);
    for reel in &machine.reels {
        assert_eq!(reel.strip_len(), 20);
        assert_eq!(reel.position_index(), 0);
        let strip: Vec<Symbols> = (0..reel.strip_len()).map(|i| reel.visible_at(i).1).collect();
        assert_eq!(sorted(strip), sorted(reel_strip(0)));
    }
}

#[test]
fn visible_rows_wrap_around_the_strip() {
    let machine = Machine::new(1);
    let reel = &machine.reels[0];
    let first = reel.visible_at(0);
    let last = reel.visible_at(19);
    assert_eq!(first.0, last.1);
    assert_eq!(last.2, first.1);
    let mid = reel.visible_at(5);
    assert_eq!(mid.0, reel.visible_at(4).1);
    assert_eq!(mid.2, reel.visible_at(6).1);
}

#[test]
fn spinning_keeps_each_strip() {
    let mut machine = Machine::new(2);
    let before: Vec<Vec<Symbols>> = machine
        .reels
        .iter()
        .map(|r| (0..r.strip_len()).map(|i| r.visible_at(i).1).collect())
        .collect();
    for _ in 0..20 {
        machine.spin();
        for (reel, strip) in machine.reels.iter().zip(&before) {
            let now: Vec<Symbols> = (0..reel.strip_len()).map(|i| reel.visible_at(i).1).collect();
            assert_eq!(&now, strip);
            assert!(reel.position_index() < reel.strip_len());
        }
    }
    assert_eq!(machine.name, "Machine 2");
    assert!(machine.paylines.is_empty());
}

fn expected_lines(machine: &Machine) -> Vec<(&'static str, Symbols, Vec<(usize, usize)>)> {
    let rows = rows_for_frame(machine, &stopped(), 0);
    let s: Vec<&[Symbols]> = rows.iter().map(|r| r.as_slice()).collect();
    let found = vec![
        check_hor_sm(&s),
        check_above_sm(&s),
        check_below_sm(&s),
        check_zig_sm(&s),
        check_zag_sm(&s),
        check_hor_xl(&s),
        check_zig(&s),
        check_zag(&s),
        check_above(&s),
        check_below(&s),
        check_eye(&s),
    ];
    found
        .into_iter()
        .flatten()
        .map(|p| (p.display_name(), *p.symbol(), p.positions().to_vec()))
        .collect()
}

#[test]
fn all_paylines_are_collected_in_order() {
    for _ in 0..50 {
        let mut machine = Machine::new(1);
        machine.spin();
        let expected = expected_lines(&machine);
        machine.get_all_paylines();
        let got: Vec<_> = machine
            .paylines
            .iter()
            .map(|p| (p.display_name(), *p.symbol(), p.positions().to_vec()))
            .collect();
        assert_eq!(got, expected);
        // a second check appends the same lines again
        machine.get_all_paylines();
        assert_eq!(machine.paylines.len(), 2 * expected.len());
    }
}

#[test]
fn machine_payout_sums_its_lines() {
    let mut machine = Machine::new(1);
    machine.paylines = vec![
        Paylines::HorXL(Symbols::Jackpot, vec![]),
        Paylines::ZigSM(Symbols::Seven, vec![]),
        Paylines::Eye(Symbols::Circle, vec![]),
    ];
    // (7*3 + 2*2 + 1*10) * 5
    assert_eq!(machine.total_payout(5), Some(175));
    assert_eq!(machine.total_payout(0), Some(0));
    assert_eq!(machine.total_payout(-2), Some(-70));
    assert_eq!(machine.total_payout(i32::MAX / 10), None);
    assert_eq!(Machine::new(2).total_payout(i32::MAX), Some(0));
}

#[test]
fn winnings_of_all_machines_add_up() {
    let mut machines = Machine::create_n_machines(3);
    machines[0].paylines = vec![Paylines::HorSM(Symbols::Dollar, vec![])];
    machines[2].paylines = vec![
        Paylines::Above(Symbols::Seven, vec![]),
        Paylines::BelowSM(Symbols::Jackpot, vec![]),
    ];
    // (1 + 16 + 7) * 10
    assert_eq!(total_winnings(&machines, 10), Some(240));
    assert_eq!(total_winnings(&[], 10), Some(0));
    assert_eq!(total_winnings(&machines, i32::MAX / 20), None);
}
