use rspin::paylines::{
    check_above, check_above_sm, check_below, check_below_sm, check_eye, check_hor_sm,
    check_hor_xl, check_zag, check_zag_sm, check_zig, check_zig_sm, Paylines,
};
use rspin::symbols::{reel_strip, Symbols};

use Symbols::{Ampersand, AtSign, Circle, Dollar, Hashtag, Jackpot, Seven, Wild};

fn grid(rows: [[Symbols; 5]; 3]) -> Vec<Vec<Symbols>> {
    rows.iter().map(|r| r.to_vec()).collect()
}

fn slices(g: &Vec<Vec<Symbols>>) -> Vec<&[Symbols]> {
    g.iter().map(|r| r.as_slice()).collect()
}

fn kind_name(p: &Option<Paylines>) -> Option<(&'static str, Symbols, Vec<(usize, usize)>)> {
    p.as_ref().map(|p| (p.display_name(), *p.symbol(), p.positions().to_vec()))
}

#[test]
fn symbol_values_follow_their_tier() {
    for s in [Circle, Hashtag, Dollar, AtSign] {
        assert_eq!(s.get_value(), 1);
    }
    for s in [Seven, Symbols::Asterisk, Ampersand] {
        assert_eq!(s.get_value(), 2);
    }
    assert_eq!(Jackpot.get_value(), 7);
    assert_eq!(Wild.get_value(), 0);
}

#[test]
fn symbol_characters() {
    let chars: String = [Circle, Hashtag, Dollar, AtSign, Seven, Symbols::Asterisk, Ampersand, Jackpot, Wild]
        .iter()
        .map(|s| s.display_char())
        .collect();
    assert_eq!(chars, "O#$@7*&!X");
}

#[test]
fn reel_strip_has_twenty_symbols_with_one_wild() {
    let strip = reel_strip(0);
    assert_eq!(strip.len(), 20);
    assert_eq!(strip.iter().filter(|s| **s == Wild).count(), 1);
    assert_eq!(strip.iter().filter(|s| **s == Jackpot).count(), 1);
    assert_eq!(strip, reel_strip(4));
}

#[test]
fn middle_row_of_same_symbol_pays() {
    let g = grid([
        [Circle, Hashtag, Dollar, AtSign, Seven],
        [Dollar, Seven, Seven, Seven, Circle],
        [Hashtag, Circle, Dollar, Jackpot, AtSign],
    ]);
    let s = slices(&g);
    assert_eq!(
        kind_name(&check_hor_sm(&s)),
        Some(("HorSM", Seven, vec![(1, 1), (1, 2), (1, 3)]))
    );
    assert!(check_hor_xl(&s).is_none());
    assert!(check_above_sm(&s).is_none());
}

#[test]
fn wild_stands_in_for_any_symbol() {
    let g = grid([
        [Wild, Jackpot, Wild, Jackpot, Jackpot],
        [Dollar, Seven, Seven, Seven, Circle],
        [Hashtag, Circle, Dollar, Jackpot, AtSign],
    ]);
    let s = slices(&g);
    assert_eq!(
        kind_name(&check_above(&s)),
        Some(("Above", Jackpot, vec![(0, 0), (0, 1), (0, 2), (0, 3), (0, 4)]))
    );
    assert_eq!(
        kind_name(&check_above_sm(&s)),
        Some(("AboveSM", Jackpot, vec![(0, 1), (0, 2), (0, 3)]))
    );
}

#[test]
fn line_of_wilds_alone_pays_nothing() {
    let g = grid([
        [Circle, Wild, Wild, Wild, Seven],
        [Dollar, Seven, Wild, Seven, Circle],
        [Hashtag, Circle, Dollar, Jackpot, AtSign],
    ]);
    let s = slices(&g);
    assert!(check_above_sm(&s).is_none());
}

#[test]
fn mixed_line_pays_nothing() {
    let g = grid([
        [Circle, Circle, Circle, Circle, Hashtag],
        [Dollar, Seven, Dollar, Seven, Circle],
        [Hashtag, Circle, Dollar, Jackpot, AtSign],
    ]);
    let s = slices(&g);
    assert!(check_above(&s).is_none());
    assert!(check_hor_sm(&s).is_none());
    assert_eq!(
        kind_name(&check_above_sm(&s)),
        Some(("AboveSM", Circle, vec![(0, 1), (0, 2), (0, 3)]))
    );
}

#[test]
fn target_is_first_real_symbol_after_wilds() {
    let g = grid([
        [Circle, Seven, Hashtag, AtSign, Seven],
        [Dollar, Wild, Wild, Ampersand, Circle],
        [Hashtag, Circle, Dollar, Jackpot, AtSign],
    ]);
    let s = slices(&g);
    assert_eq!(
        kind_name(&check_hor_sm(&s)),
        Some(("HorSM", Ampersand, vec![(1, 1), (1, 2), (1, 3)]))
    );
}

#[test]
fn diagonals_and_zigzags() {
    let g = grid([
        [Dollar, AtSign, Circle, Seven, Hashtag],
        [Circle, Dollar, Seven, AtSign, Circle],
        [Seven, Seven, Dollar, Hashtag, Seven],
    ]);
    let s = slices(&g);
    assert_eq!(kind_name(&check_zig_sm(&s)), Some(("ZigSM", Seven, vec![(2, 1), (1, 2), (0, 3)])));
    assert!(check_zag_sm(&s).is_none());
    assert!(check_zig(&s).is_none());
    assert_eq!(
        kind_name(&check_zag(&s)),
        None,
    );
    let g2 = grid([
        [Dollar, AtSign, Circle, Seven, Hashtag],
        [Circle, Dollar, Seven, Dollar, Circle],
        [Seven, Seven, Dollar, Hashtag, Seven],
    ]);
    let s2 = slices(&g2);
    assert_eq!(
        kind_name(&check_zag(&s2)),
        None,
    );
    let g3 = grid([
        [Dollar, AtSign, Circle, Seven, Dollar],
        [Circle, Dollar, Seven, Dollar, Circle],
        [Seven, Seven, Wild, Hashtag, Seven],
    ]);
    let s3 = slices(&g3);
    assert_eq!(
        kind_name(&check_zag(&s3)),
        Some(("Zag", Dollar, vec![(0, 0), (1, 1), (2, 2), (1, 3), (0, 4)]))
    );
    assert_eq!(
        kind_name(&check_zag_sm(&s3)),
        None
    );
}

#[test]
fn bottom_rows_and_zig() {
    let g = grid([
        [Dollar, AtSign, Hashtag, Seven, Hashtag],
        [Circle, Hashtag, Seven, Hashtag, Circle],
        [Hashtag, Hashtag, Hashtag, Hashtag, Hashtag],
    ]);
    let s = slices(&g);
    assert_eq!(
        kind_name(&check_below(&s)),
        Some(("Below", Hashtag, vec![(2, 0), (2, 1), (2, 2), (2, 3), (2, 4)]))
    );
    assert_eq!(
        kind_name(&check_below_sm(&s)),
        Some(("BelowSM", Hashtag, vec![(2, 1), (2, 2), (2, 3)]))
    );
    assert_eq!(
        kind_name(&check_zig(&s)),
        Some(("Zig", Hashtag, vec![(2, 0), (1, 1), (0, 2), (1, 3), (2, 4)]))
    );
}

#[test]
fn eye_around_the_middle() {
    let g = grid([
        [Circle, Jackpot, Jackpot, Wild, Seven],
        [Jackpot, Seven, Circle, Dollar, Jackpot],
        [Hashtag, Jackpot, Jackpot, Jackpot, AtSign],
    ]);
    let s = slices(&g);
    assert_eq!(
        kind_name(&check_eye(&s)),
        Some((
            "Eye",
            Jackpot,
            vec![(1, 0), (0, 1), (2, 1), (0, 2), (2, 2), (0, 3), (2, 3), (1, 4)]
        ))
    );
    assert!(check_hor_xl(&s).is_none());
}

#[test]
fn payouts_are_value_times_multiplier_times_bet() {
    let cases: Vec<(Paylines, i32)> = vec![
        (Paylines::HorSM(Circle, vec![]), 1),
        (Paylines::AboveSM(Seven, vec![]), 2),
        (Paylines::BelowSM(Jackpot, vec![]), 7),
        (Paylines::ZigSM(Circle, vec![]), 2),
        (Paylines::ZagSM(Ampersand, vec![]), 4),
        (Paylines::HorXL(Jackpot, vec![]), 21),
        (Paylines::Zig(Dollar, vec![]), 4),
        (Paylines::Zag(Seven, vec![]), 8),
        (Paylines::Above(AtSign, vec![]), 8),
        (Paylines::Below(Jackpot, vec![]), 56),
        (Paylines::Eye(Jackpot, vec![]), 70),
    ];
    for (line, per_credit) in &cases {
        assert_eq!(line.get_payout(10), per_credit * 10);
        assert_eq!(line.checked_payout(10), Some(per_credit * 10));
        assert_eq!(line.get_payout(0), 0);
    }
    assert_eq!(Paylines::Eye(Wild, vec![]).get_payout(5), 0);
    assert_eq!(Paylines::HorSM(Seven, vec![]).get_payout(-3), -6);
}

#[test]
fn multipliers_per_line() {
    let lines = vec![
        Paylines::HorSM(Circle, vec![]),
        Paylines::AboveSM(Circle, vec![]),
        Paylines::BelowSM(Circle, vec![]),
        Paylines::ZigSM(Circle, vec![]),
        Paylines::ZagSM(Circle, vec![]),
        Paylines::HorXL(Circle, vec![]),
        Paylines::Zig(Circle, vec![]),
        Paylines::Zag(Circle, vec![]),
        Paylines::Above(Circle, vec![]),
        Paylines::Below(Circle, vec![]),
        Paylines::Eye(Circle, vec![]),
    ];
    let m: Vec<i32> = lines.iter().map(|l| l.multiplier()).collect();
    assert_eq!(m, vec![1, 1, 1, 2, 2, 3, 4, 4, 8, 8, 10]);
}

#[test]
fn checked_payout_overflow() {
    assert_eq!(Paylines::Eye(Jackpot, vec![]).checked_payout(i32::MAX), None);
    assert_eq!(Paylines::Eye(Jackpot, vec![]).checked_payout(i32::MAX / 70), Some((i32::MAX / 70) * 70));
    assert_eq!(Paylines::HorSM(Circle, vec![]).checked_payout(i32::MIN), Some(i32::MIN));
    assert_eq!(Paylines::ZigSM(Circle, vec![]).checked_payout(i32::MIN), None);
}

#[test]
fn payline_accessors() {
    let p = Paylines::ZagSM(Dollar, vec![(0, 1), (1, 2), (2, 3)]);
    assert_eq!(p.display_name(), "ZagSM");
    assert_eq!(*p.symbol(), Dollar);
    assert_eq!(p.positions(), &[(0, 1), (1, 2), (2, 3)]);
}
