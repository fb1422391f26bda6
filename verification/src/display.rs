use vstd::prelude::*;
use vstd::string::StringExecFns;

use crate::animation_state::{
    spec_initial_state, spec_show_winnings_frames, spec_tick, initial_state_fits, AnimationState,
    AnimationType, FRAMES_PER_PAYLINE, INITIAL_WAIT_FRAME, LEVER_PULL_FRAME_TIME,
};
use crate::machine::{fits_i32, lines_payout, lines_view, visible_grid, visible_symbol, Machine, Reel};
use crate::paylines::{line_name, line_payout, Paylines};
use crate::symbols::{symbol_char, Symbols};
use crate::text::{append_decimal, append_signed, decimal};

verus! {

/// Terminal lines each machine takes: header, top border, three rows,
/// bottom border, info line and spacer.
pub const LINES_PER_MACHINE: i32 = 8;

/// Terminal lines besides the machines: one at the top, the total winnings and the
/// prompt to press a key.
pub const EXTRA_LINES: i32 = 3;

/// The terminal lines the animation of `count` machines takes.
pub fn stage_lines(count: i32) -> (lines: i32)
    requires
        i32::MIN <= count * LINES_PER_MACHINE + EXTRA_LINES <= i32::MAX,
    ensures
        lines == count * LINES_PER_MACHINE + EXTRA_LINES,
{
    count * LINES_PER_MACHINE + EXTRA_LINES
}

/// The colours a winning line's symbols are highlighted in (shown bold).
#[derive(Clone, Copy, Debug, PartialEq, Eq, Structural)]
pub enum HighlightColor {
    Yellow,
    Cyan,
    Blue,
    Magenta,
    DarkMagenta,
    Green,
    DarkYellow,
    Red,
    DarkCyan,
    DarkBlue,
    White,
}

/// The colour each kind of line is highlighted in.
pub open spec fn spec_winning_color(kind: int) -> HighlightColor {
    if kind == 0 {
        HighlightColor::Yellow
    } else if kind == 1 {
        HighlightColor::Cyan
    } else if kind == 2 {
        HighlightColor::Blue
    } else if kind == 3 {
        HighlightColor::Magenta
    } else if kind == 4 {
        HighlightColor::DarkMagenta
    } else if kind == 5 {
        HighlightColor::Green
    } else if kind == 6 {
        HighlightColor::DarkYellow
    } else if kind == 7 {
        HighlightColor::Red
    } else if kind == 8 {
        HighlightColor::DarkCyan
    } else if kind == 9 {
        HighlightColor::DarkBlue
    } else {
        HighlightColor::White
    }
}

/// The colour the symbols of a winning line are highlighted in.
pub fn winning_color(payline: &Paylines) -> (color: HighlightColor)
    ensures
        color == spec_winning_color(payline@.0),
{
    match payline {
        Paylines::HorSM(..) => HighlightColor::Yellow,
        Paylines::AboveSM(..) => HighlightColor::Cyan,
        Paylines::BelowSM(..) => HighlightColor::Blue,
        Paylines::ZigSM(..) => HighlightColor::Magenta,
        Paylines::ZagSM(..) => HighlightColor::DarkMagenta,
        Paylines::HorXL(..) => HighlightColor::Green,
        Paylines::Zig(..) => HighlightColor::DarkYellow,
        Paylines::Zag(..) => HighlightColor::Red,
        Paylines::Above(..) => HighlightColor::DarkCyan,
        Paylines::Below(..) => HighlightColor::DarkBlue,
        Paylines::Eye(..) => HighlightColor::White,
    }
}

/// How far the lever has been pulled, from 0 (up) through 2 (all the way down) to 4
/// (back up), given the frames left in the pull.
pub open spec fn spec_lever_frame(frames_remaining: int) -> int {
    if frames_remaining >= LEVER_PULL_FRAME_TIME - 1 {
        0
    } else {
        LEVER_PULL_FRAME_TIME - 1 - frames_remaining
    }
}

pub fn lever_frame(frames_remaining: usize) -> (f: usize)
    ensures
        f == spec_lever_frame(frames_remaining as int),
{
    (LEVER_PULL_FRAME_TIME - 1).saturating_sub(frames_remaining)
}

/// What is drawn to the right of row `row` while the lever is in pull frame `lever_frame`:
/// the handle `O`, the shaft `|`, or nothing.
pub open spec fn spec_lever_suffix(lever_frame: int, row: int) -> Seq<char> {
    if row == 0 && (lever_frame == 0 || lever_frame == 4) {
        " O"@
    } else if row == 0 && (lever_frame == 1 || lever_frame == 3) {
        " |"@
    } else if row == 1 && (lever_frame == 1 || lever_frame == 3) {
        " O"@
    } else if lever_frame == 2 && (row == 0 || row == 1) {
        " |"@
    } else if lever_frame == 2 && row == 2 {
        " O"@
    } else {
        "  "@
    }
}

/// The lever's motion over a pull: the handle `O` goes down one row per frame, from
/// the top row to the bottom row at frame 2, and back up; the rows above the handle show
/// the shaft `|`, the rows below it nothing.
pub proof fn lemma_lever_motion(frame: int, row: int)
    requires
        0 <= frame <= 4,
        0 <= row < 3,
    ensures
        row == (if frame <= 2 { frame } else { 4 - frame }) ==> spec_lever_suffix(frame, row)
            == " O"@,
        row < (if frame <= 2 { frame } else { 4 - frame }) ==> spec_lever_suffix(frame, row)
            == " |"@,
        row > (if frame <= 2 { frame } else { 4 - frame }) ==> spec_lever_suffix(frame, row)
            == "  "@,
{
}

/// A pull of the lever runs through frames 0 to 4 as the frames left in the pull count
/// down from 4 to 0: the handle starts and ends at the top.
pub proof fn lemma_lever_frames(frames_remaining: int)
    requires
        0 <= frames_remaining,
    ensures
        frames_remaining <= 4 ==> spec_lever_frame(frames_remaining) + frames_remaining == 4,
        frames_remaining >= 4 ==> spec_lever_frame(frames_remaining) == 0,
{
}

pub fn lever_suffix(lever_frame: usize, row_idx: usize) -> (suffix: &'static str)
    ensures
        suffix@ == spec_lever_suffix(lever_frame as int, row_idx as int),
{
    match (lever_frame, row_idx) {
        (0, 0) | (4, 0) => " O",  // handle at top
        (1, 0) | (3, 0) => " |",  // shaft at top, handle mid
        (1, 1) | (3, 1) => " O",  // handle at middle
        (2, 0) | (2, 1) => " |",  // shaft trailing
        (2, 2) => " O",  // handle at bottom (fully pulled)
        _ => "  ",  // nothing
    }
}

/// What is drawn to the right of row `row` in the given animation state: the lever
/// moving while it is pulled, and otherwise its handle up beside the top row.
pub open spec fn spec_lever_for(state: AnimationState, row: int) -> Seq<char> {
    if state.animation_type == AnimationType::LeverPull {
        spec_lever_suffix(spec_lever_frame(state.frames_remaining as int), row)
    } else if row == 0 {
        " O"@
    } else {
        "  "@
    }
}

pub fn lever_for(state: &AnimationState, row_idx: usize) -> (suffix: &'static str)
    ensures
        suffix@ == spec_lever_for(*state, row_idx as int),
{
    if state.animation_type == AnimationType::LeverPull {
        lever_suffix(lever_frame(state.frames_remaining), row_idx)
    } else if row_idx == 0 {
        " O"
    } else {
        "  "
    }
}

/// Which of `line_count` winning lines is highlighted: each is shown for
/// `FRAMES_PER_PAYLINE` frames in turn, round and round.
pub open spec fn spec_current_payline_index(state: AnimationState, line_count: int) -> int {
    let elapsed = if state.show_winnings_duration >= state.frames_remaining {
        state.show_winnings_duration - state.frames_remaining
    } else {
        0
    };
    (elapsed / FRAMES_PER_PAYLINE as int) % line_count
}

/// The winning lines take turns: the first is shown as the winnings start to show, and
/// each further `FRAMES_PER_PAYLINE` frames move on to the next line, back to the first
/// after the last.
pub proof fn lemma_lines_take_turns(state: AnimationState, later: AnimationState, line_count: int)
    requires
        line_count > 0,
        later.show_winnings_duration == state.show_winnings_duration,
        state.frames_remaining <= state.show_winnings_duration,
        later.frames_remaining + FRAMES_PER_PAYLINE == state.frames_remaining,
    ensures
        0 <= spec_current_payline_index(state, line_count) < line_count,
        state.frames_remaining == state.show_winnings_duration ==> spec_current_payline_index(
            state,
            line_count,
        ) == 0,
        spec_current_payline_index(later, line_count) == (spec_current_payline_index(
            state,
            line_count,
        ) + 1) % line_count,
{
    let e = state.show_winnings_duration - state.frames_remaining;
    let f = FRAMES_PER_PAYLINE as int;
    assert(later.show_winnings_duration - later.frames_remaining == e + f);
    vstd::arithmetic::div_mod::lemma_div_plus_one(e, f);
    assert((f + e) / f == e / f + 1);
    assert((e + f) / f == e / f + 1);
    vstd::arithmetic::div_mod::lemma_add_mod_noop(e / f, 1, line_count);
    vstd::arithmetic::div_mod::lemma_mod_bound(e / f, line_count);
    if line_count == 1 {
        vstd::arithmetic::div_mod::lemma_mod_self_0(1);
    } else {
        vstd::arithmetic::div_mod::lemma_small_mod(1, line_count as nat);
    }
    if e == 0 {
        assert(0int / f == 0);
        vstd::arithmetic::div_mod::lemma_small_mod(0, line_count as nat);
    }
    assert(((e / f) % line_count + 1) % line_count == (e / f + 1) % line_count);
}

pub fn current_payline_index(state: &AnimationState, line_count: usize) -> (idx: usize)
    requires
        line_count > 0,
    ensures
        idx == spec_current_payline_index(*state, line_count as int),
        idx < line_count,
{
    let elapsed = state.show_winnings_duration.saturating_sub(state.frames_remaining);
    (elapsed / FRAMES_PER_PAYLINE) % line_count
}

/// Where the middle row of a reel is drawn in the given phase and frame: at the start
/// of its strip before the spin, running through the strip while spinning, and where
/// it stopped once the spin is over.
pub open spec fn display_position(reel: Reel, kind: AnimationType, frame: int) -> int {
    match kind {
        AnimationType::Wait | AnimationType::LeverPull => 0,
        AnimationType::Spinning => frame % (reel.strip().len() as int),
        _ => reel.position() as int,
    }
}

/// The three rows of five symbols drawn in the given phase and frame.
pub open spec fn frame_grid(reels: [Reel; 5], kind: AnimationType, frame: int) -> Seq<Seq<Symbols>> {
    Seq::new(
        3,
        |row: int|
            Seq::new(
                5,
                |col: int|
                    visible_symbol(reels[col].strip(), display_position(reels[col], kind, frame), row),
            ),
    )
}

/// The rows of symbols to draw for a machine in the given animation state and frame.
pub fn rows_for_frame(machine: &Machine, state: &AnimationState, frame: usize) -> (rows: Vec<
    Vec<Symbols>,
>)
    ensures
        rows@.len() == 3,
        forall|r: int|
            0 <= r < 3 ==> (#[trigger] rows@[r])@ == frame_grid(
                machine.reels,
                state.animation_type,
                frame as int,
            )[r],
{
    let mut top: Vec<Symbols> = Vec::new();
    let mut middle: Vec<Symbols> = Vec::new();
    let mut bottom: Vec<Symbols> = Vec::new();
    let ghost grid = frame_grid(machine.reels, state.animation_type, frame as int);
    let mut i: usize = 0;
    while i < 5
        invariant
            i <= 5,
            grid == frame_grid(machine.reels, state.animation_type, frame as int),
            top@.len() == i,
            middle@.len() == i,
            bottom@.len() == i,
            forall|c: int| 0 <= c < i ==> #[trigger] top@[c] == grid[0][c],
            forall|c: int| 0 <= c < i ==> #[trigger] middle@[c] == grid[1][c],
            forall|c: int| 0 <= c < i ==> #[trigger] bottom@[c] == grid[2][c],
        decreases 5 - i,
    {
        let reel = &machine.reels[i];
        let len = reel.strip_len();
        let mid = match state.animation_type {
            AnimationType::Wait | AnimationType::LeverPull => 0,
            AnimationType::Spinning => frame % len,
            _ => reel.position_index(),
        };
        let (above, at, below) = reel.visible_at(mid);
        top.push(above);
        middle.push(at);
        bottom.push(below);
        i = i + 1;
    }
    let rows = vec![top, middle, bottom];
    assert(rows@[0]@ =~= grid[0]);
    assert(rows@[1]@ =~= grid[1]);
    assert(rows@[2]@ =~= grid[2]);
    rows
}

/// Once the spin is over, the rows drawn are the rows the lines were checked on.
pub proof fn lemma_result_shows_checked_rows(reels: [Reel; 5], kind: AnimationType, frame: int)
    requires
        kind == AnimationType::ShowWinnings || kind == AnimationType::Stopped,
    ensures
        frame_grid(reels, kind, frame) == visible_grid(reels),
{
    assert(frame_grid(reels, kind, frame) =~= visible_grid(reels)) by {
        assert forall|r: int| 0 <= r < 3 implies frame_grid(reels, kind, frame)[r] =~= visible_grid(
            reels,
        )[r] by {}
    }
}

/// The most lines any machine won, or 0 when there are no machines.
pub fn max_paylines(machines: &[Machine]) -> (most: usize)
    ensures
        forall|i: int| 0 <= i < machines@.len() ==> (#[trigger] machines@[i]).paylines@.len() <= most,
        machines@.len() == 0 ==> most == 0,
        machines@.len() > 0 ==> exists|i: int|
            0 <= i < machines@.len() && (#[trigger] machines@[i]).paylines@.len() == most,
{
    let mut most: usize = 0;
    let mut i: usize = 0;
    while i < machines.len()
        invariant
            i <= machines@.len(),
            forall|j: int| 0 <= j < i ==> (#[trigger] machines@[j]).paylines@.len() <= most,
            i == 0 ==> most == 0,
            i > 0 ==> exists|j: int| 0 <= j < i && (#[trigger] machines@[j]).paylines@.len() == most,
        decreases machines@.len() - i,
    {
        let n = machines[i].paylines.len();
        if i == 0 || n > most {
            most = n;
        }
        i = i + 1;
    }
    most
}

/// The animation states the machines start in, the `i`-th for the `i`-th machine.
pub fn initial_states(total_machines: usize, max_paylines: usize) -> (states: Vec<AnimationState>)
    requires
        FRAMES_PER_PAYLINE * max_paylines <= usize::MAX,
        total_machines * INITIAL_WAIT_FRAME <= usize::MAX,
        spec_show_winnings_frames(max_paylines as nat) + total_machines * INITIAL_WAIT_FRAME
            <= usize::MAX,
    ensures
        states@.len() == total_machines,
        forall|i: int|
            0 <= i < total_machines ==> #[trigger] states@[i] == spec_initial_state(
                i as nat,
                total_machines as nat,
                max_paylines as nat,
            ),
{
    let mut states: Vec<AnimationState> = Vec::new();
    let mut i: usize = 0;
    while i < total_machines
        invariant
            i <= total_machines,
            FRAMES_PER_PAYLINE * max_paylines <= usize::MAX,
            total_machines * INITIAL_WAIT_FRAME <= usize::MAX,
            spec_show_winnings_frames(max_paylines as nat) + total_machines * INITIAL_WAIT_FRAME
                <= usize::MAX,
            states@.len() == i,
            forall|j: int|
                0 <= j < i ==> #[trigger] states@[j] == spec_initial_state(
                    j as nat,
                    total_machines as nat,
                    max_paylines as nat,
                ),
        decreases total_machines - i,
    {
        assert(initial_state_fits(i as nat, total_machines as nat, max_paylines as nat));
        states.push(AnimationState::new(i, total_machines, max_paylines));
        i = i + 1;
    }
    states
}

/// Whether every machine has reached the `Stopped` phase.
pub fn all_stopped(states: &[AnimationState]) -> (stopped: bool)
    ensures
        stopped == forall|i: int|
            0 <= i < states@.len() ==> (#[trigger] states@[i]).animation_type
                == AnimationType::Stopped,
{
    let mut i: usize = 0;
    while i < states.len()
        invariant
            i <= states@.len(),
            forall|j: int|
                0 <= j < i ==> (#[trigger] states@[j]).animation_type == AnimationType::Stopped,
        decreases states@.len() - i,
    {
        if states[i].animation_type != AnimationType::Stopped {
            return false;
        }
        i = i + 1;
    }
    true
}

/// Advance every machine's animation by one frame.
pub fn tick_all(states: &mut Vec<AnimationState>)
    ensures
        final(states)@.len() == old(states)@.len(),
        forall|i: int|
            0 <= i < old(states)@.len() ==> #[trigger] final(states)@[i] == spec_tick(old(states)@[i]),
{
    let mut i: usize = 0;
    while i < states.len()
        invariant
            i <= states@.len(),
            states@.len() == old(states)@.len(),
            forall|j: int| 0 <= j < i ==> #[trigger] states@[j] == spec_tick(old(states)@[j]),
            forall|j: int| i <= j < states@.len() ==> #[trigger] states@[j] == old(states)@[j],
        decreases states@.len() - i,
    {
        states[i].tick();
        i = i + 1;
    }
}

/// How a symbol on the machine is drawn.
#[derive(Clone, Copy, Debug, PartialEq, Eq, Structural)]
pub enum CellStyle {
    /// As it is, while the reels are about to spin or spinning.
    Plain,
    /// Greyed out, once the spin is over and the symbol is not on the highlighted line.
    Dimmed,
    /// Bold in the colour of the highlighted winning line it lies on.
    Highlighted(HighlightColor),
}

/// The winning line highlighted in the given state: while the winnings are shown, the
/// lines take turns; otherwise there is none.
pub open spec fn highlighted_line(machine: Machine, state: AnimationState) -> Option<Paylines> {
    if state.animation_type == AnimationType::ShowWinnings && machine.paylines@.len() > 0 {
        Some(
            machine.paylines@[spec_current_payline_index(state, machine.paylines@.len() as int)],
        )
    } else {
        None
    }
}

/// How the symbol in row `row` and column `col` is drawn in the given state.
pub open spec fn spec_cell_style(machine: Machine, state: AnimationState, row: usize, col: usize) -> CellStyle {
    match highlighted_line(machine, state) {
        Some(line) => if line@.2.contains((row, col)) {
            CellStyle::Highlighted(spec_winning_color(line@.0))
        } else {
            CellStyle::Dimmed
        },
        None => if state.animation_type == AnimationType::ShowWinnings || state.animation_type
            == AnimationType::Stopped {
            CellStyle::Dimmed
        } else {
            CellStyle::Plain
        },
    }
}

/// How symbols are styled over a spin: as they are until the reels stop; while the
/// winnings are shown, every position of the highlighted line (the line whose turn it
/// is) in that line's colour and every other symbol greyed out, or all greyed out when
/// nothing was won; once stopped, all greyed out.
pub proof fn lemma_cell_styles(machine: Machine, state: AnimationState, row: usize, col: usize)
    ensures
        (state.animation_type == AnimationType::Wait || state.animation_type
            == AnimationType::LeverPull || state.animation_type == AnimationType::Spinning)
            ==> spec_cell_style(machine, state, row, col) == CellStyle::Plain,
        state.animation_type == AnimationType::Stopped ==> spec_cell_style(machine, state, row, col)
            == CellStyle::Dimmed,
        state.animation_type == AnimationType::ShowWinnings && machine.paylines@.len() == 0
            ==> spec_cell_style(machine, state, row, col) == CellStyle::Dimmed,
        state.animation_type == AnimationType::ShowWinnings && machine.paylines@.len() > 0 ==> {
            let line = machine.paylines@[spec_current_payline_index(
                state,
                machine.paylines@.len() as int,
            )];
            &&& forall|i: int|
                0 <= i < line@.2.len() ==> spec_cell_style(
                    machine,
                    state,
                    (#[trigger] line@.2[i]).0,
                    line@.2[i].1,
                ) == CellStyle::Highlighted(spec_winning_color(line@.0))
            &&& (forall|i: int| 0 <= i < line@.2.len() ==> line@.2[i] != (row, col))
                ==> spec_cell_style(machine, state, row, col) == CellStyle::Dimmed
        },
{
    if state.animation_type == AnimationType::ShowWinnings && machine.paylines@.len() > 0 {
        let line = machine.paylines@[spec_current_payline_index(
            state,
            machine.paylines@.len() as int,
        )];
        assert forall|i: int| 0 <= i < line@.2.len() implies spec_cell_style(
            machine,
            state,
            (#[trigger] line@.2[i]).0,
            line@.2[i].1,
        ) == CellStyle::Highlighted(spec_winning_color(line@.0)) by {
            assert(line@.2[i] == (line@.2[i].0, line@.2[i].1));
            assert(line@.2.contains(line@.2[i]));
        }
    }
}

/// Each kind of line is highlighted in its own colour.
pub proof fn lemma_winning_colors_distinct(k1: int, k2: int)
    requires
        0 <= k1 < 11,
        0 <= k2 < 11,
        k1 != k2,
    ensures
        spec_winning_color(k1) != spec_winning_color(k2),
{
}

/// How the symbol in row `row` and column `col` of a machine is drawn in the given state.
pub fn cell_style(machine: &Machine, state: &AnimationState, row: usize, col: usize) -> (style: CellStyle)
    ensures
        style == spec_cell_style(*machine, *state, row, col),
{
    if state.animation_type == AnimationType::ShowWinnings && machine.paylines.len() > 0 {
        let idx = current_payline_index(state, machine.paylines.len());
        let line = &machine.paylines[idx];
        let positions = line.positions();
        assert(highlighted_line(*machine, *state) == Some(*line));
        let mut i: usize = 0;
        while i < positions.len()
            invariant
                highlighted_line(*machine, *state) == Some(*line),
                i <= positions@.len(),
                positions@ == line@.2,
                forall|j: int| 0 <= j < i ==> positions@[j] != (row, col),
            decreases positions@.len() - i,
        {
            if positions[i].0 == row && positions[i].1 == col {
                assert(positions@[i as int] == (row, col));
                assert(line@.2.contains((row, col)));
                return CellStyle::Highlighted(winning_color(line));
            }
            i = i + 1;
        }
        assert(!line@.2.contains((row, col)));
        CellStyle::Dimmed
    } else if state.animation_type == AnimationType::ShowWinnings || state.animation_type
        == AnimationType::Stopped {
        CellStyle::Dimmed
    } else {
        CellStyle::Plain
    }
}

/// Spaces that indent the machine's drawing.
pub open spec fn padding() -> Seq<char> {
    "     "@
}

/// The line of text under a machine in the given state, for the given bet: while the
/// winnings are shown, the highlighted line's name, symbol and payout (or that nothing
/// was won); once stopped, how many lines paid and how much in all; otherwise nothing.
/// `None` when a payout does not fit in an `i32`.
pub open spec fn spec_info_line(machine: Machine, state: AnimationState, bet: int) -> Option<Seq<char>> {
    if state.animation_type == AnimationType::ShowWinnings {
        match highlighted_line(machine, state) {
            None => Some(padding() + "0 lines paid 0 credits"@),
            Some(line) => {
                let payout = line_payout(line@.0, line@.1, bet);
                if fits_i32(payout) {
                    Some(
                        padding() + line_name(line@.0) + " ("@ + seq![symbol_char(line@.1)] + ") - "@
                            + decimal(payout) + " credits"@,
                    )
                } else {
                    None
                }
            },
        }
    } else if state.animation_type == AnimationType::Stopped {
        let total = lines_payout(lines_view(machine.paylines@), bet);
        if fits_i32(total) {
            Some(
                padding() + decimal(machine.paylines@.len() as int) + " lines paid "@ + decimal(
                    total,
                ) + " credits"@,
            )
        } else {
            None
        }
    } else {
        Some(Seq::empty())
    }
}

/// The character of a symbol as a string.
fn symbol_text(symbol: Symbols) -> (text: &'static str)
    ensures
        text@ == seq![symbol_char(symbol)],
{
    proof {
        reveal_strlit("O");
        reveal_strlit("#");
        reveal_strlit("$");
        reveal_strlit("@");
        reveal_strlit("7");
        reveal_strlit("*");
        reveal_strlit("&");
        reveal_strlit("!");
        reveal_strlit("X");
    }
    let text = match symbol {
        Symbols::Circle => "O",
        Symbols::Hashtag => "#",
        Symbols::Dollar => "$",
        Symbols::AtSign => "@",
        Symbols::Seven => "7",
        Symbols::Asterisk => "*",
        Symbols::Ampersand => "&",
        Symbols::Jackpot => "!",
        Symbols::Wild => "X",
    };
    assert(text@ =~= seq![symbol_char(symbol)]);
    text
}

/// The line of text under a machine in the given state, for the given bet, or `None` when
/// a payout does not fit in an `i32`.
pub fn info_line(machine: &Machine, state: &AnimationState, bet: i32) -> (text: Option<String>)
    ensures
        match text {
            Some(t) => spec_info_line(*machine, *state, bet as int) == Some(t@),
            None => spec_info_line(*machine, *state, bet as int) is None,
        },
{
    if state.animation_type == AnimationType::ShowWinnings {
        let mut text = String::from_str("     ");
        if machine.paylines.len() == 0 {
            text.append("0 lines paid 0 credits");
        } else {
            let idx = current_payline_index(state, machine.paylines.len());
            let line = &machine.paylines[idx];
            let payout = match line.checked_payout(bet) {
                Some(p) => p,
                None => return None,
            };
            text.append(line.display_name());
            text.append(" (");
            text.append(symbol_text(*line.symbol()));
            text.append(") - ");
            append_signed(&mut text, payout as i64);
            text.append(" credits");
        }
        Some(text)
    } else if state.animation_type == AnimationType::Stopped {
        let total = match machine.total_payout(bet) {
            Some(t) => t,
            None => return None,
        };
        let mut text = String::from_str("     ");
        append_decimal(&mut text, machine.paylines.len() as u64);
        text.append(" lines paid ");
        append_signed(&mut text, total as i64);
        text.append(" credits");
        Some(text)
    } else {
        Some(String::new())
    }
}

} // verus!
