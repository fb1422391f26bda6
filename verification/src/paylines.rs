use vstd::prelude::*;

use crate::symbols::{symbol_value, Symbols};

verus! {

/// A winning line on a machine: the symbol it paid with and the
/// `(row, column)` positions it runs through.
///
/// Rows are 0 (top), 1 (middle) and 2 (bottom); columns are the five reels.
#[derive(Debug, Clone)]
pub enum Paylines {
    HorSM(Symbols, Vec<(usize, usize)>),
    AboveSM(Symbols, Vec<(usize, usize)>),
    BelowSM(Symbols, Vec<(usize, usize)>),
    ZigSM(Symbols, Vec<(usize, usize)>),
    ZagSM(Symbols, Vec<(usize, usize)>),
    HorXL(Symbols, Vec<(usize, usize)>),
    Zig(Symbols, Vec<(usize, usize)>),
    Zag(Symbols, Vec<(usize, usize)>),
    Above(Symbols, Vec<(usize, usize)>),
    Below(Symbols, Vec<(usize, usize)>),
    Eye(Symbols, Vec<(usize, usize)>),
}

/// The eleven kinds of line, numbered in the order the machine checks them:
/// 0 HorSM, 1 AboveSM, 2 BelowSM, 3 ZigSM, 4 ZagSM, 5 HorXL, 6 Zig, 7 Zag,
/// 8 Above, 9 Below, 10 Eye.
pub open spec fn is_line_kind(kind: int) -> bool {
    0 <= kind < 11
}

/// The positions a line of the given kind runs through.
pub open spec fn line_positions(kind: int) -> Seq<(usize, usize)> {
    if kind == 0 {
        seq![(1, 1), (1, 2), (1, 3)]
    } else if kind == 1 {
        seq![(0, 1), (0, 2), (0, 3)]
    } else if kind == 2 {
        seq![(2, 1), (2, 2), (2, 3)]
    } else if kind == 3 {
        seq![(2, 1), (1, 2), (0, 3)]
    } else if kind == 4 {
        seq![(0, 1), (1, 2), (2, 3)]
    } else if kind == 5 {
        seq![(1, 0), (1, 1), (1, 2), (1, 3), (1, 4)]
    } else if kind == 6 {
        seq![(2, 0), (1, 1), (0, 2), (1, 3), (2, 4)]
    } else if kind == 7 {
        seq![(0, 0), (1, 1), (2, 2), (1, 3), (0, 4)]
    } else if kind == 8 {
        seq![(0, 0), (0, 1), (0, 2), (0, 3), (0, 4)]
    } else if kind == 9 {
        seq![(2, 0), (2, 1), (2, 2), (2, 3), (2, 4)]
    } else {
        seq![(1, 0), (0, 1), (2, 1), (0, 2), (2, 2), (0, 3), (2, 3), (1, 4)]
    }
}

/// How many times the symbol value and the bet a line of the given kind pays.
pub open spec fn line_multiplier(kind: int) -> int {
    if kind <= 2 {
        1
    } else if kind <= 4 {
        2
    } else if kind == 5 {
        3
    } else if kind <= 7 {
        4
    } else if kind <= 9 {
        8
    } else {
        10
    }
}

/// The name under which a line of the given kind is shown.
pub open spec fn line_name(kind: int) -> Seq<char> {
    if kind == 0 {
        "HorSM"@
    } else if kind == 1 {
        "AboveSM"@
    } else if kind == 2 {
        "BelowSM"@
    } else if kind == 3 {
        "ZigSM"@
    } else if kind == 4 {
        "ZagSM"@
    } else if kind == 5 {
        "HorXL"@
    } else if kind == 6 {
        "Zig"@
    } else if kind == 7 {
        "Zag"@
    } else if kind == 8 {
        "Above"@
    } else if kind == 9 {
        "Below"@
    } else {
        "Eye"@
    }
}

impl View for Paylines {
    /// The kind of the line, its symbol and its positions.
    type V = (int, Symbols, Seq<(usize, usize)>);

    open spec fn view(&self) -> (int, Symbols, Seq<(usize, usize)>) {
        match self {
            Paylines::HorSM(s, p) => (0, *s, p@),
            Paylines::AboveSM(s, p) => (1, *s, p@),
            Paylines::BelowSM(s, p) => (2, *s, p@),
            Paylines::ZigSM(s, p) => (3, *s, p@),
            Paylines::ZagSM(s, p) => (4, *s, p@),
            Paylines::HorXL(s, p) => (5, *s, p@),
            Paylines::Zig(s, p) => (6, *s, p@),
            Paylines::Zag(s, p) => (7, *s, p@),
            Paylines::Above(s, p) => (8, *s, p@),
            Paylines::Below(s, p) => (9, *s, p@),
            Paylines::Eye(s, p) => (10, *s, p@),
        }
    }
}

/// Every line is of one of the eleven kinds.
pub proof fn lemma_line_kind(line: Paylines)
    ensures
        is_line_kind(line@.0),
{
}

/// The shapes of the lines, in terms of rows (0 top, 1 middle, 2 bottom) and columns
/// (the reels, 0 to 4):
/// - the five small lines run through the three centre reels, one cell per reel in
///   reel order: along the middle, top or bottom row, up the rising diagonal (row
///   2, 1, 0), or down the falling diagonal (row 0, 1, 2);
/// - the five wide lines run through all five reels, one cell per reel in reel order:
///   along the middle row, as a peak (rows 2 1 0 1 2), as a valley (rows 0 1 2 1 0),
///   along the top or along the bottom row;
/// - the eye runs once through every cell of the top and bottom rows of the three
///   centre reels, and through the middle cell of the two outer reels.
pub proof fn lemma_line_shapes(kind: int)
    requires
        is_line_kind(kind),
    ensures
        0 <= kind <= 4 ==> {
            &&& line_positions(kind).len() == 3
            &&& forall|i: int| 0 <= i < 3 ==> (#[trigger] line_positions(kind)[i]).1 == i + 1
        },
        5 <= kind <= 9 ==> {
            &&& line_positions(kind).len() == 5
            &&& forall|i: int| 0 <= i < 5 ==> (#[trigger] line_positions(kind)[i]).1 == i
        },
        kind == 0 ==> forall|i: int| 0 <= i < 3 ==> (#[trigger] line_positions(kind)[i]).0 == 1,
        kind == 1 ==> forall|i: int| 0 <= i < 3 ==> (#[trigger] line_positions(kind)[i]).0 == 0,
        kind == 2 ==> forall|i: int| 0 <= i < 3 ==> (#[trigger] line_positions(kind)[i]).0 == 2,
        kind == 3 ==> forall|i: int| 0 <= i < 3 ==> (#[trigger] line_positions(kind)[i]).0 == 2 - i,
        kind == 4 ==> forall|i: int| 0 <= i < 3 ==> (#[trigger] line_positions(kind)[i]).0 == i,
        kind == 5 ==> forall|i: int| 0 <= i < 5 ==> (#[trigger] line_positions(kind)[i]).0 == 1,
        kind == 6 ==> forall|i: int|
            0 <= i < 5 ==> (#[trigger] line_positions(kind)[i]).0 == (if i <= 2 {
                2 - i
            } else {
                i - 2
            }),
        kind == 7 ==> forall|i: int|
            0 <= i < 5 ==> (#[trigger] line_positions(kind)[i]).0 == (if i <= 2 {
                i
            } else {
                4 - i
            }),
        kind == 8 ==> forall|i: int| 0 <= i < 5 ==> (#[trigger] line_positions(kind)[i]).0 == 0,
        kind == 9 ==> forall|i: int| 0 <= i < 5 ==> (#[trigger] line_positions(kind)[i]).0 == 2,
        kind == 10 ==> {
            &&& line_positions(kind).len() == 8
            &&& forall|r: usize, c: usize|
                #[trigger] line_positions(kind).contains((r, c)) <==> ((r == 1 && (c == 0 || c
                    == 4)) || ((r == 0 || r == 2) && 1 <= c <= 3))
            &&& forall|i: int, j: int|
                0 <= i < j < 8 ==> line_positions(kind)[i] != line_positions(kind)[j]
        },
{
    let p = line_positions(kind);
    if kind <= 4 {
        assert forall|i: int| 0 <= i < 3 implies (#[trigger] p[i]).1 == i + 1 by {
            assert(i == 0 || i == 1 || i == 2);
        }
        assert forall|i: int| 0 <= i < 3 implies (#[trigger] p[i]).0 == (if kind == 0 {
            1
        } else if kind == 1 {
            0
        } else if kind == 2 {
            2
        } else if kind == 3 {
            2 - i
        } else {
            i
        }) by {
            assert(i == 0 || i == 1 || i == 2);
        }
    } else if kind <= 9 {
        assert forall|i: int| 0 <= i < 5 implies (#[trigger] p[i]).1 == i by {
            assert(i == 0 || i == 1 || i == 2 || i == 3 || i == 4);
        }
        assert forall|i: int| 0 <= i < 5 implies (#[trigger] p[i]).0 == (if kind == 5 {
            1
        } else if kind == 6 {
            if i <= 2 {
                2 - i
            } else {
                i - 2
            }
        } else if kind == 7 {
            if i <= 2 {
                i
            } else {
                4 - i
            }
        } else if kind == 8 {
            0
        } else {
            2
        }) by {
            assert(i == 0 || i == 1 || i == 2 || i == 3 || i == 4);
        }
    } else {
        assert forall|r: usize, c: usize|
            #[trigger] p.contains((r, c)) implies ((r == 1 && (c == 0 || c == 4)) || ((r == 0
                || r == 2) && 1 <= c <= 3)) by {
            let k = choose|k: int| 0 <= k < p.len() && p[k] == (r, c);
            assert(k == 0 || k == 1 || k == 2 || k == 3 || k == 4 || k == 5 || k == 6 || k == 7);
        }
        assert forall|r: usize, c: usize|
            ((r == 1 && (c == 0 || c == 4)) || ((r == 0 || r == 2) && 1 <= c <= 3)) implies
            #[trigger] p.contains((r, c)) by {
            if r == 1 && c == 0 {
                assert(p[0] == (r, c));
            } else if r == 0 && c == 1 {
                assert(p[1] == (r, c));
            } else if r == 2 && c == 1 {
                assert(p[2] == (r, c));
            } else if r == 0 && c == 2 {
                assert(p[3] == (r, c));
            } else if r == 2 && c == 2 {
                assert(p[4] == (r, c));
            } else if r == 0 && c == 3 {
                assert(p[5] == (r, c));
            } else if r == 2 && c == 3 {
                assert(p[6] == (r, c));
            } else {
                assert(p[7] == (r, c));
            }
        }
        assert forall|i: int, j: int| 0 <= i < j < 8 implies p[i] != p[j] by {
            assert(i == 0 || i == 1 || i == 2 || i == 3 || i == 4 || i == 5 || i == 6);
            assert(j == 1 || j == 2 || j == 3 || j == 4 || j == 5 || j == 6 || j == 7);
        }
    }
}

/// Each kind of line has its own name: HorSM, AboveSM, BelowSM, ZigSM, ZagSM, HorXL, Zig,
/// Zag, Above, Below and Eye, in the order of the kinds, and no two kinds share a name.
pub proof fn lemma_line_names(k1: int, k2: int)
    requires
        is_line_kind(k1),
        is_line_kind(k2),
    ensures
        k1 != k2 ==> line_name(k1) != line_name(k2),
        line_name(0) == "HorSM"@,
        line_name(1) == "AboveSM"@,
        line_name(2) == "BelowSM"@,
        line_name(3) == "ZigSM"@,
        line_name(4) == "ZagSM"@,
        line_name(5) == "HorXL"@,
        line_name(6) == "Zig"@,
        line_name(7) == "Zag"@,
        line_name(8) == "Above"@,
        line_name(9) == "Below"@,
        line_name(10) == "Eye"@,
{
    reveal_strlit("HorSM");
    reveal_strlit("AboveSM");
    reveal_strlit("BelowSM");
    reveal_strlit("ZigSM");
    reveal_strlit("ZagSM");
    reveal_strlit("HorXL");
    reveal_strlit("Zig");
    reveal_strlit("Zag");
    reveal_strlit("Above");
    reveal_strlit("Below");
    reveal_strlit("Eye");
    let n1 = line_name(k1);
    let n2 = line_name(k2);
    if k1 != k2 {
        assert(n1.len() != n2.len() || n1[0] != n2[0] || n1[1] != n2[1] || n1[3] != n2[3]);
    }
}

/// What each kind of line multiplies by: the small straight lines 1x and the small
/// diagonals 2x; the whole middle row 3x, the peak and valley 4x, the whole top or bottom
/// row 8x; the eye 10x. Every wide line pays more than every small one, and the eye pays
/// the most.
pub proof fn lemma_line_multipliers(k1: int, k2: int)
    requires
        is_line_kind(k1),
        is_line_kind(k2),
    ensures
        0 <= k1 <= 2 ==> line_multiplier(k1) == 1,
        3 <= k1 <= 4 ==> line_multiplier(k1) == 2,
        k1 == 5 ==> line_multiplier(k1) == 3,
        6 <= k1 <= 7 ==> line_multiplier(k1) == 4,
        8 <= k1 <= 9 ==> line_multiplier(k1) == 8,
        k1 == 10 ==> line_multiplier(k1) == 10,
        k1 <= 4 < k2 ==> line_multiplier(k1) < line_multiplier(k2),
        k1 < 10 ==> line_multiplier(k1) < line_multiplier(10),
{
}

/// What a line of the given kind with the given symbol pays on the given bet.
pub open spec fn line_payout(kind: int, symbol: Symbols, bet: int) -> int {
    symbol_value(symbol) * line_multiplier(kind) * bet
}

/// A line's payout grows in step with the bet: it pays nothing on no bet, on a bet of
/// one credit it pays the symbol's value times the line's multiplier, and the payouts
/// on two bets add up to the payout on their sum.
pub proof fn lemma_line_payout_per_credit(kind: int, symbol: Symbols, bet1: int, bet2: int)
    ensures
        line_payout(kind, symbol, 0) == 0,
        line_payout(kind, symbol, 1) == symbol_value(symbol) * line_multiplier(kind),
        line_payout(kind, symbol, bet1 + bet2) == line_payout(kind, symbol, bet1) + line_payout(
            kind,
            symbol,
            bet2,
        ),
{
    let v = symbol_value(symbol) * line_multiplier(kind);
    assert(v * (bet1 + bet2) == v * bet1 + v * bet2) by (nonlinear_arith);
    assert(v * 0 == 0);
    assert(v * 1 == v);
}

/// The rows of visible symbols, each row a sequence of symbols by column.
pub open spec fn grid_of(visible_reels: &[&[Symbols]]) -> Seq<Seq<Symbols>> {
    visible_reels@.map_values(|row: &[Symbols]| row@)
}

/// The symbol at a position of the grid.
pub open spec fn cell(grid: Seq<Seq<Symbols>>, pos: (usize, usize)) -> Symbols {
    grid[pos.0 as int][pos.1 as int]
}

/// Every position lies inside the grid.
pub open spec fn positions_in_bounds(grid: Seq<Seq<Symbols>>, positions: Seq<(usize, usize)>) -> bool {
    forall|i: int|
        0 <= i < positions.len() ==> {
            &&& (#[trigger] positions[i]).0 < grid.len()
            &&& positions[i].1 < grid[positions[i].0 as int].len()
        }
}

/// The line through `positions` pays with symbol `target`: the target is a
/// real (non-wild) symbol, it shows at least once on the line, and every
/// position shows either the target or a wild.
pub open spec fn line_pays_with(
    grid: Seq<Seq<Symbols>>,
    positions: Seq<(usize, usize)>,
    target: Symbols,
) -> bool {
    &&& target != Symbols::Wild
    &&& exists|i: int| 0 <= i < positions.len() && cell(grid, #[trigger] positions[i]) == target
    &&& forall|i: int|
        0 <= i < positions.len() ==> cell(grid, #[trigger] positions[i]) == target || cell(
            grid,
            positions[i],
        ) == Symbols::Wild
}

/// The symbol the line through `positions` pays with, if it pays.
pub open spec fn line_symbol(grid: Seq<Seq<Symbols>>, positions: Seq<(usize, usize)>) -> Option<
    Symbols,
> {
    if exists|t: Symbols| line_pays_with(grid, positions, t) {
        Some(choose|t: Symbols| line_pays_with(grid, positions, t))
    } else {
        None
    }
}

/// A line pays with at most one symbol.
pub proof fn lemma_line_symbol_unique(
    grid: Seq<Seq<Symbols>>,
    positions: Seq<(usize, usize)>,
    t1: Symbols,
    t2: Symbols,
)
    requires
        line_pays_with(grid, positions, t1),
        line_pays_with(grid, positions, t2),
    ensures
        t1 == t2,
{
    let i = choose|i: int| 0 <= i < positions.len() && cell(grid, #[trigger] positions[i]) == t1;
    assert(cell(grid, positions[i]) == t2 || cell(grid, positions[i]) == Symbols::Wild);
}

/// The wild stands in for any symbol: a line on which every position shows the real
/// symbol `t` or a wild, and `t` at least once, pays with `t`.
pub proof fn lemma_wild_substitutes(
    grid: Seq<Seq<Symbols>>,
    positions: Seq<(usize, usize)>,
    t: Symbols,
    i: int,
)
    requires
        t != Symbols::Wild,
        0 <= i < positions.len(),
        cell(grid, positions[i]) == t,
        forall|j: int|
            0 <= j < positions.len() ==> cell(grid, #[trigger] positions[j]) == t || cell(
                grid,
                positions[j],
            ) == Symbols::Wild,
    ensures
        line_symbol(grid, positions) == Some(t),
{
    assert(line_pays_with(grid, positions, t));
    let c = choose|c: Symbols| line_pays_with(grid, positions, c);
    lemma_line_symbol_unique(grid, positions, c, t);
}

/// A line of wilds alone pays nothing.
pub proof fn lemma_all_wilds_pay_nothing(grid: Seq<Seq<Symbols>>, positions: Seq<(usize, usize)>)
    requires
        forall|j: int| 0 <= j < positions.len() ==> cell(grid, #[trigger] positions[j]) == Symbols::Wild,
    ensures
        line_symbol(grid, positions) is None,
{
    assert forall|t: Symbols| !line_pays_with(grid, positions, t) by {
        if line_pays_with(grid, positions, t) {
            let k = choose|k: int| 0 <= k < positions.len() && cell(grid, #[trigger] positions[k]) == t;
        }
    }
}

/// A line that shows two different real symbols pays nothing.
pub proof fn lemma_mixed_line_pays_nothing(
    grid: Seq<Seq<Symbols>>,
    positions: Seq<(usize, usize)>,
    i: int,
    j: int,
)
    requires
        0 <= i < positions.len(),
        0 <= j < positions.len(),
        cell(grid, positions[i]) != Symbols::Wild,
        cell(grid, positions[j]) != Symbols::Wild,
        cell(grid, positions[i]) != cell(grid, positions[j]),
    ensures
        line_symbol(grid, positions) is None,
{
    assert forall|t: Symbols| !line_pays_with(grid, positions, t) by {
        if line_pays_with(grid, positions, t) {
            assert(cell(grid, positions[i]) == t || cell(grid, positions[i]) == Symbols::Wild);
            assert(cell(grid, positions[j]) == t || cell(grid, positions[j]) == Symbols::Wild);
        }
    }
}

/// Whether a line pays with `t` depends only on which positions it runs through, not
/// on their order: positions holding the same positions, each as often, pay alike.
proof fn lemma_pays_with_permuted(
    grid: Seq<Seq<Symbols>>,
    positions: Seq<(usize, usize)>,
    positions2: Seq<(usize, usize)>,
    t: Symbols,
)
    requires
        positions.to_multiset() == positions2.to_multiset(),
    ensures
        line_pays_with(grid, positions, t) ==> line_pays_with(grid, positions2, t),
{
    positions.to_multiset_ensures();
    positions2.to_multiset_ensures();
    if line_pays_with(grid, positions, t) {
        let i = choose|i: int| 0 <= i < positions.len() && cell(grid, #[trigger] positions[i]) == t;
        assert(positions.contains(positions[i]));
        assert(positions.to_multiset().count(positions[i]) > 0);
        assert(positions2.to_multiset().count(positions[i]) > 0);
        assert(positions2.contains(positions[i]));
        let k = choose|k: int| 0 <= k < positions2.len() && positions2[k] == positions[i];
        assert(cell(grid, positions2[k]) == t);
        assert forall|j: int| 0 <= j < positions2.len() implies cell(grid, #[trigger] positions2[j])
            == t || cell(grid, positions2[j]) == Symbols::Wild by {
            assert(positions2.contains(positions2[j]));
            assert(positions2.to_multiset().count(positions2[j]) > 0);
            assert(positions.to_multiset().count(positions2[j]) > 0);
            assert(positions.contains(positions2[j]));
            let m = choose|m: int| 0 <= m < positions.len() && positions[m] == positions2[j];
            assert(cell(grid, positions[m]) == t || cell(grid, positions[m]) == Symbols::Wild);
        }
    }
}

/// The answer of a payline check does not depend on the order of the positions: which
/// real symbol is met first does not change the symbol the line pays with.
pub proof fn lemma_line_symbol_permutation(
    grid: Seq<Seq<Symbols>>,
    positions: Seq<(usize, usize)>,
    positions2: Seq<(usize, usize)>,
)
    requires
        positions.to_multiset() == positions2.to_multiset(),
    ensures
        line_symbol(grid, positions) == line_symbol(grid, positions2),
{
    assert forall|t: Symbols| line_pays_with(grid, positions, t) == line_pays_with(
        grid,
        positions2,
        t,
    ) by {
        lemma_pays_with_permuted(grid, positions, positions2, t);
        lemma_pays_with_permuted(grid, positions2, positions, t);
    }
    if exists|t: Symbols| line_pays_with(grid, positions, t) {
        let t1 = choose|t: Symbols| line_pays_with(grid, positions, t);
        let t2 = choose|t: Symbols| line_pays_with(grid, positions2, t);
        lemma_line_symbol_unique(grid, positions, t1, t2);
    }
}

/// The line a checker of the given kind reports, as its view.
pub open spec fn found_line(grid: Seq<Seq<Symbols>>, kind: int) -> Option<
    (int, Symbols, Seq<(usize, usize)>),
> {
    match line_symbol(grid, line_positions(kind)) {
        Some(s) => Some((kind, s, line_positions(kind))),
        None => None,
    }
}

/// The view of an optional line.
pub open spec fn opt_view(p: Option<Paylines>) -> Option<(int, Symbols, Seq<(usize, usize)>)> {
    match p {
        Some(line) => Some(line@),
        None => None,
    }
}

impl Paylines {
    /// What this line pays on the given bet: the symbol's value times the
    /// line's multiplier times the bet.
    pub fn get_payout(&self, bet: i32) -> (payout: i32)
        requires
            i32::MIN <= line_payout(self@.0, self@.1, bet as int) <= i32::MAX,
        ensures
            payout == line_payout(self@.0, self@.1, bet as int),
    {
        match self {
            Paylines::HorSM(symbol, _)
            | Paylines::AboveSM(symbol, _)
            | Paylines::BelowSM(symbol, _) => symbol.get_value() * bet,
            Paylines::ZigSM(symbol, _) | Paylines::ZagSM(symbol, _) => symbol.get_value() * 2 * bet,
            Paylines::HorXL(symbol, _) => symbol.get_value() * 3 * bet,
            Paylines::Zig(symbol, _) | Paylines::Zag(symbol, _) => symbol.get_value() * 4 * bet,
            Paylines::Above(symbol, _) | Paylines::Below(symbol, _) => symbol.get_value() * 8 * bet,
            Paylines::Eye(symbol, _) => symbol.get_value() * 10 * bet,
        }
    }

    /// What this line pays on the given bet, or `None` when that does not fit in an `i32`.
    pub fn checked_payout(&self, bet: i32) -> (payout: Option<i32>)
        ensures
            payout == (if i32::MIN <= line_payout(self@.0, self@.1, bet as int) <= i32::MAX {
                Some(line_payout(self@.0, self@.1, bet as int) as i32)
            } else {
                None
            }),
    {
        let base = self.symbol().get_value() * self.multiplier();
        base.checked_mul(bet)
    }

    /// How many times the symbol value and the bet this line pays.
    pub fn multiplier(&self) -> (m: i32)
        ensures
            m == line_multiplier(self@.0),
    {
        match self {
            Paylines::HorSM(..) | Paylines::AboveSM(..) | Paylines::BelowSM(..) => 1,
            Paylines::ZigSM(..) | Paylines::ZagSM(..) => 2,
            Paylines::HorXL(..) => 3,
            Paylines::Zig(..) | Paylines::Zag(..) => 4,
            Paylines::Above(..) | Paylines::Below(..) => 8,
            Paylines::Eye(..) => 10,
        }
    }

    pub fn display_name(&self) -> (name: &'static str)
        ensures
            name@ == line_name(self@.0),
    {
        match self {
            Paylines::HorSM(..) => "HorSM",
            Paylines::AboveSM(..) => "AboveSM",
            Paylines::BelowSM(..) => "BelowSM",
            Paylines::ZigSM(..) => "ZigSM",
            Paylines::ZagSM(..) => "ZagSM",
            Paylines::HorXL(..) => "HorXL",
            Paylines::Zig(..) => "Zig",
            Paylines::Zag(..) => "Zag",
            Paylines::Above(..) => "Above",
            Paylines::Below(..) => "Below",
            Paylines::Eye(..) => "Eye",
        }
    }

    pub fn symbol(&self) -> (s: &Symbols)
        ensures
            *s == self@.1,
    {
        match self {
            Paylines::HorSM(s, _)
            | Paylines::AboveSM(s, _)
            | Paylines::BelowSM(s, _)
            | Paylines::ZigSM(s, _)
            | Paylines::ZagSM(s, _)
            | Paylines::HorXL(s, _)
            | Paylines::Zig(s, _)
            | Paylines::Zag(s, _)
            | Paylines::Above(s, _)
            | Paylines::Below(s, _)
            | Paylines::Eye(s, _) => s,
        }
    }

    pub fn positions(&self) -> (p: &[(usize, usize)])
        ensures
            p@ == self@.2,
    {
        match self {
            Paylines::HorSM(_, p)
            | Paylines::AboveSM(_, p)
            | Paylines::BelowSM(_, p)
            | Paylines::ZigSM(_, p)
            | Paylines::ZagSM(_, p)
            | Paylines::HorXL(_, p)
            | Paylines::Zig(_, p)
            | Paylines::Zag(_, p)
            | Paylines::Above(_, p)
            | Paylines::Below(_, p)
            | Paylines::Eye(_, p) => p.as_slice(),
        }
    }
}

/// The symbol that the line through `positions` pays with: the first
/// non-wild symbol on the line, provided every other position shows that
/// symbol or a wild. A line of wilds alone pays nothing.
pub fn check_payline(visible_reels: &[&[Symbols]], positions: &[(usize, usize)]) -> (r: Option<
    Symbols,
>)
    requires
        positions_in_bounds(grid_of(visible_reels), positions@),
    ensures
        r == line_symbol(grid_of(visible_reels), positions@),
{
    let ghost grid = grid_of(visible_reels);
    let ghost pos = positions@;
    // Find the first non-wild symbol to use as the target
    let mut target: Option<Symbols> = None;
    let mut i: usize = 0;
    while i < positions.len()
        invariant_except_break
            target is None,
        invariant
            i <= positions.len(),
            pos == positions@,
            grid == grid_of(visible_reels),
            positions_in_bounds(grid, pos),
            forall|j: int| 0 <= j < i ==> cell(grid, #[trigger] pos[j]) == Symbols::Wild,
        ensures
            match target {
                Some(t) => {
                    &&& i < pos.len()
                    &&& cell(grid, pos[i as int]) == t
                    &&& t != Symbols::Wild
                },
                None => i == pos.len(),
            },
        decreases positions.len() - i,
    {
        let (row, col) = positions[i];
        assert(row < grid.len() && col < grid[row as int].len()) by {
            assert(pos[i as int] == (row, col));
        }
        let s = visible_reels[row][col];
        if s != Symbols::Wild {
            target = Some(s);
            break;
        }
        i = i + 1;
    }
    let target = match target {
        Some(t) => t,
        None => {
            // All positions are wild: no payout
            assert forall|t: Symbols| !line_pays_with(grid, pos, t) by {
                if line_pays_with(grid, pos, t) {
                    let k = choose|k: int| 0 <= k < pos.len() && cell(grid, #[trigger] pos[k]) == t;
                }
            }
            return None;
        },
    };
    let ghost first = i as int;
    let mut k: usize = 0;
    while k < positions.len()
        invariant
            k <= positions.len(),
            pos == positions@,
            grid == grid_of(visible_reels),
            positions_in_bounds(grid, pos),
            0 <= first < pos.len(),
            cell(grid, pos[first]) == target,
            target != Symbols::Wild,
            forall|j: int|
                0 <= j < k ==> cell(grid, #[trigger] pos[j]) == target || cell(grid, pos[j])
                    == Symbols::Wild,
        decreases positions.len() - k,
    {
        let (row, col) = positions[k];
        assert(row < grid.len() && col < grid[row as int].len()) by {
            assert(pos[k as int] == (row, col));
        }
        let s = visible_reels[row][col];
        if s != target && s != Symbols::Wild {
            assert forall|t: Symbols| !line_pays_with(grid, pos, t) by {
                if line_pays_with(grid, pos, t) {
                    assert(cell(grid, pos[first]) == t || cell(grid, pos[first]) == Symbols::Wild);
                    assert(cell(grid, pos[k as int]) == s);
                }
            }
            return None;
        }
        k = k + 1;
    }
    assert(line_pays_with(grid, pos, target));
    proof {
        let t = choose|t: Symbols| line_pays_with(grid, pos, t);
        lemma_line_symbol_unique(grid, pos, t, target);
    }
    Some(target)
}

/// The middle row of the three centre reels:
///
/// ```text
///
/// . - - - .
///
/// ```
pub fn check_hor_sm(visible_reels: &[&[Symbols]]) -> (r: Option<Paylines>)
    requires
        positions_in_bounds(grid_of(visible_reels), line_positions(0)),
    ensures
        opt_view(r) == found_line(grid_of(visible_reels), 0),
{
    let positions_vec: Vec<(usize, usize)> = vec![(1, 1), (1, 2), (1, 3)];
    assert(positions_vec@ == line_positions(0));
    match check_payline(visible_reels, positions_vec.as_slice()) {
        Some(symbols) => Some(Paylines::HorSM(symbols, positions_vec)),
        None => None,
    }
}

/// The top row of the three centre reels:
///
/// ```text
/// . - - - .
///
///
/// ```
pub fn check_above_sm(visible_reels: &[&[Symbols]]) -> (r: Option<Paylines>)
    requires
        positions_in_bounds(grid_of(visible_reels), line_positions(1)),
    ensures
        opt_view(r) == found_line(grid_of(visible_reels), 1),
{
    let positions_vec: Vec<(usize, usize)> = vec![(0, 1), (0, 2), (0, 3)];
    assert(positions_vec@ == line_positions(1));
    match check_payline(visible_reels, positions_vec.as_slice()) {
        Some(symbols) => Some(Paylines::AboveSM(symbols, positions_vec)),
        None => None,
    }
}

/// The bottom row of the three centre reels:
///
/// ```text
///
///
/// . - - - .
/// ```
pub fn check_below_sm(visible_reels: &[&[Symbols]]) -> (r: Option<Paylines>)
    requires
        positions_in_bounds(grid_of(visible_reels), line_positions(2)),
    ensures
        opt_view(r) == found_line(grid_of(visible_reels), 2),
{
    let positions_vec: Vec<(usize, usize)> = vec![(2, 1), (2, 2), (2, 3)];
    assert(positions_vec@ == line_positions(2));
    match check_payline(visible_reels, positions_vec.as_slice()) {
        Some(symbols) => Some(Paylines::BelowSM(symbols, positions_vec)),
        None => None,
    }
}

/// A rising diagonal across the three centre reels:
///
/// ```text
///     -
///   -
/// -
/// ```
pub fn check_zig_sm(visible_reels: &[&[Symbols]]) -> (r: Option<Paylines>)
    requires
        positions_in_bounds(grid_of(visible_reels), line_positions(3)),
    ensures
        opt_view(r) == found_line(grid_of(visible_reels), 3),
{
    let positions_vec: Vec<(usize, usize)> = vec![(2, 1), (1, 2), (0, 3)];
    assert(positions_vec@ == line_positions(3));
    match check_payline(visible_reels, positions_vec.as_slice()) {
        Some(symbols) => Some(Paylines::ZigSM(symbols, positions_vec)),
        None => None,
    }
}

/// A falling diagonal across the three centre reels:
///
/// ```text
/// -
///   -
///     -
/// ```
pub fn check_zag_sm(visible_reels: &[&[Symbols]]) -> (r: Option<Paylines>)
    requires
        positions_in_bounds(grid_of(visible_reels), line_positions(4)),
    ensures
        opt_view(r) == found_line(grid_of(visible_reels), 4),
{
    let positions_vec: Vec<(usize, usize)> = vec![(0, 1), (1, 2), (2, 3)];
    assert(positions_vec@ == line_positions(4));
    match check_payline(visible_reels, positions_vec.as_slice()) {
        Some(symbols) => Some(Paylines::ZagSM(symbols, positions_vec)),
        None => None,
    }
}

/// The whole middle row:
///
/// ```text
///
/// -----
///
/// ```
pub fn check_hor_xl(visible_reels: &[&[Symbols]]) -> (r: Option<Paylines>)
    requires
        positions_in_bounds(grid_of(visible_reels), line_positions(5)),
    ensures
        opt_view(r) == found_line(grid_of(visible_reels), 5),
{
    let positions_vec: Vec<(usize, usize)> = vec![(1, 0), (1, 1), (1, 2), (1, 3), (1, 4)];
    assert(positions_vec@ == line_positions(5));
    match check_payline(visible_reels, positions_vec.as_slice()) {
        Some(symbols) => Some(Paylines::HorXL(symbols, positions_vec)),
        None => None,
    }
}

/// A peak across all five reels:
///
/// ```text
///   -
///  - -
/// -   -
/// ```
pub fn check_zig(visible_reels: &[&[Symbols]]) -> (r: Option<Paylines>)
    requires
        positions_in_bounds(grid_of(visible_reels), line_positions(6)),
    ensures
        opt_view(r) == found_line(grid_of(visible_reels), 6),
{
    let positions_vec: Vec<(usize, usize)> = vec![(2, 0), (1, 1), (0, 2), (1, 3), (2, 4)];
    assert(positions_vec@ == line_positions(6));
    match check_payline(visible_reels, positions_vec.as_slice()) {
        Some(symbols) => Some(Paylines::Zig(symbols, positions_vec)),
        None => None,
    }
}

/// A valley across all five reels:
///
/// ```text
/// -   -
///  - -
///   -
/// ```
pub fn check_zag(visible_reels: &[&[Symbols]]) -> (r: Option<Paylines>)
    requires
        positions_in_bounds(grid_of(visible_reels), line_positions(7)),
    ensures
        opt_view(r) == found_line(grid_of(visible_reels), 7),
{
    let positions_vec: Vec<(usize, usize)> = vec![(0, 0), (1, 1), (2, 2), (1, 3), (0, 4)];
    assert(positions_vec@ == line_positions(7));
    match check_payline(visible_reels, positions_vec.as_slice()) {
        Some(symbols) => Some(Paylines::Zag(symbols, positions_vec)),
        None => None,
    }
}

/// The whole top row:
///
/// ```text
/// -----
///
///
/// ```
pub fn check_above(visible_reels: &[&[Symbols]]) -> (r: Option<Paylines>)
    requires
        positions_in_bounds(grid_of(visible_reels), line_positions(8)),
    ensures
        opt_view(r) == found_line(grid_of(visible_reels), 8),
{
    let positions_vec: Vec<(usize, usize)> = vec![(0, 0), (0, 1), (0, 2), (0, 3), (0, 4)];
    assert(positions_vec@ == line_positions(8));
    match check_payline(visible_reels, positions_vec.as_slice()) {
        Some(symbols) => Some(Paylines::Above(symbols, positions_vec)),
        None => None,
    }
}

/// The whole bottom row:
///
/// ```text
///
///
/// -----
/// ```
pub fn check_below(visible_reels: &[&[Symbols]]) -> (r: Option<Paylines>)
    requires
        positions_in_bounds(grid_of(visible_reels), line_positions(9)),
    ensures
        opt_view(r) == found_line(grid_of(visible_reels), 9),
{
    let positions_vec: Vec<(usize, usize)> = vec![(2, 0), (2, 1), (2, 2), (2, 3), (2, 4)];
    assert(positions_vec@ == line_positions(9));
    match check_payline(visible_reels, positions_vec.as_slice()) {
        Some(symbols) => Some(Paylines::Below(symbols, positions_vec)),
        None => None,
    }
}

/// A diamond around the middle row:
///
/// ```text
///  ---
/// -   -
///  ---
/// ```
pub fn check_eye(visible_reels: &[&[Symbols]]) -> (r: Option<Paylines>)
    requires
        positions_in_bounds(grid_of(visible_reels), line_positions(10)),
    ensures
        opt_view(r) == found_line(grid_of(visible_reels), 10),
{
    let positions_vec: Vec<(usize, usize)> = vec![
        (1, 0),
        (0, 1),
        (2, 1),
        (0, 2),
        (2, 2),
        (0, 3),
        (2, 3),
        (1, 4),
    ];
    assert(positions_vec@ == line_positions(10));
    match check_payline(visible_reels, positions_vec.as_slice()) {
        Some(symbols) => Some(Paylines::Eye(symbols, positions_vec)),
        None => None,
    }
}

} // verus!
