use vstd::prelude::*;
use vstd::string::StringExecFns;

use rand::seq::SliceRandom;
use rand::RngExt;

use crate::paylines::{
    check_above, check_above_sm, check_below, check_below_sm, check_eye, check_hor_sm,
    check_hor_xl, check_zag, check_zag_sm, check_zig, check_zig_sm, found_line, grid_of,
    line_multiplier, line_payout, line_positions, opt_view, positions_in_bounds, Paylines,
};
use crate::symbols::{reel_strip, spec_reel_strip, symbol_value, Symbols};
use crate::text::{append_signed, decimal};

verus! {

/// The random number generator of the current thread.
#[verifier::external_type_specification]
#[verifier::external_body]
pub struct ExThreadRng(rand::rngs::ThreadRng);

/// Calls `rand::rng`, which hands out the generator of the current thread.
/// Nothing is stated of the generator; rand documents that the call panics
/// only when the operating system's source of randomness fails while seeding.
#[verifier::external_body]
fn thread_rng() -> (rng: rand::rngs::ThreadRng) {
    rand::rng()
}

/// Calls `RngExt::random_range` on `0..upper`; rand documents a value drawn
/// from the range, and a panic on an empty range, which `requires` leaves out.
#[verifier::external_body]
fn random_below(rng: &mut rand::rngs::ThreadRng, upper: usize) -> (r: usize)
    requires
        upper > 0,
    ensures
        r < upper,
{
    rng.random_range(0..upper)
}

/// Calls `SliceRandom::shuffle`, which rand documents as putting the slice in a
/// random order: the symbols afterwards are the symbols before, rearranged.
/// Which order comes out is left unsaid, as it rests on chance.
#[verifier::external_body]
fn shuffle_symbols(rng: &mut rand::rngs::ThreadRng, symbols: &mut Vec<Symbols>)
    ensures
        final(symbols)@.to_multiset() == old(symbols)@.to_multiset(),
{
    symbols.shuffle(rng)
}

/// The title of machine number `n`.
pub open spec fn spec_machine_name(n: int) -> Seq<char> {
    "Machine "@ + decimal(n)
}

/// The title of machine number `machine_num`: "Machine " and its decimal form.
fn machine_name(machine_num: i32) -> (name: String)
    ensures
        name@ == spec_machine_name(machine_num as int),
{
    let mut name = String::from_str("Machine ");
    append_signed(&mut name, machine_num as i64);
    name
}

/// The symbol shown in row `row` (0 top, 1 middle, 2 bottom) of a reel whose
/// strip is `strip` and whose middle row shows `strip[position]`; the strip wraps around.
pub open spec fn visible_symbol(strip: Seq<Symbols>, position: int, row: int) -> Symbols {
    strip[(position + row - 1 + strip.len()) % (strip.len() as int)]
}

/// A reel shows three neighbouring symbols of its strip: the middle row shows the symbol
/// at the position, the top row the symbol just before it and the bottom row the symbol
/// just after it, the strip wrapping around from its last symbol to its first.
pub proof fn lemma_visible_neighbours(strip: Seq<Symbols>, position: int)
    requires
        0 <= position < strip.len(),
    ensures
        visible_symbol(strip, position, 1) == strip[position],
        position > 0 ==> visible_symbol(strip, position, 0) == strip[position - 1],
        position == 0 ==> visible_symbol(strip, position, 0) == strip[strip.len() - 1],
        position + 1 < strip.len() ==> visible_symbol(strip, position, 2) == strip[position + 1],
        position + 1 == strip.len() ==> visible_symbol(strip, position, 2) == strip[0],
{
    let l = strip.len() as int;
    let m = position;
    assert((m + 1 - 1 + l) % l == m) by (nonlinear_arith)
        requires
            0 <= m < l,
    ;
    if m > 0 {
        assert((m + 0 - 1 + l) % l == m - 1) by (nonlinear_arith)
            requires
                0 < m < l,
        ;
    } else {
        assert((m + 0 - 1 + l) % l == l - 1) by (nonlinear_arith)
            requires
                m == 0,
                l > 0,
        ;
    }
    if m + 1 < l {
        assert((m + 2 - 1 + l) % l == m + 1) by (nonlinear_arith)
            requires
                0 <= m,
                m + 1 < l,
        ;
    } else {
        assert((m + 2 - 1 + l) % l == 0) by (nonlinear_arith)
            requires
                m + 1 == l,
                l > 0,
        ;
    }
}

/// One reel: a strip of symbols and the index of the symbol in the middle row.
#[derive(Debug)]
pub struct Reel {
    symbols: Vec<Symbols>,
    ptr: usize,
}

impl Reel {
    /// The strip is never empty and the middle row always shows one of its symbols.
    #[verifier::type_invariant]
    spec fn inv(self) -> bool {
        &&& self.symbols.len() > 0
        &&& self.ptr < self.symbols.len()
    }

    /// The reel's strip of symbols.
    pub closed spec fn strip(self) -> Seq<Symbols> {
        self.symbols@
    }

    /// The index in the strip of the symbol in the middle row.
    pub closed spec fn position(self) -> nat {
        self.ptr as nat
    }

    /// The symbol in row `row` of this reel.
    pub open spec fn spec_visible(self, row: int) -> Symbols {
        visible_symbol(self.strip(), self.position() as int, row)
    }

    /// Make a new reel and shuffle it
    pub fn new(reel_num: usize) -> (reel: Self)
        requires
            reel_num < 5,
        ensures
            reel.strip().to_multiset() == spec_reel_strip().to_multiset(),
            reel.strip().len() == spec_reel_strip().len(),
            reel.position() == 0,
    {
        let mut reel_set = reel_strip(reel_num);
        let mut rng = thread_rng();
        let ghost before = reel_set@;
        shuffle_symbols(&mut rng, &mut reel_set);
        proof {
            before.to_multiset_ensures();
            reel_set@.to_multiset_ensures();
            assert(spec_reel_strip().len() == 20);
        }
        Reel { symbols: reel_set, ptr: 0 }
    }

    /// Spin the individual reel: the middle row moves to a random place on the strip.
    pub fn spin(&mut self, rng: &mut rand::rngs::ThreadRng)
        ensures
            final(self).strip() == old(self).strip(),
            final(self).position() < final(self).strip().len(),
    {
        let drawn = random_below(rng, self.strip_len());
        self.set_position(drawn);
    }

    /// Put the symbol at index `pos` of the strip in the middle row.
    pub fn set_position(&mut self, pos: usize)
        requires
            pos < old(self).strip().len(),
        ensures
            final(self).position() == pos,
            final(self).strip() == old(self).strip(),
    {
        self.ptr = pos;
    }

    /// The number of symbols on the strip.
    pub fn strip_len(&self) -> (len: usize)
        ensures
            len == self.strip().len(),
            len > 0,
    {
        proof {
            use_type_invariant(self);
        }
        self.symbols.len()
    }

    /// The index in the strip of the symbol in the middle row.
    pub fn position_index(&self) -> (pos: usize)
        ensures
            pos == self.position(),
            pos < self.strip().len(),
    {
        proof {
            use_type_invariant(self);
        }
        self.ptr
    }

    /// The symbols in the three rows of this reel, top to bottom.
    fn visible(&self) -> (rows: (Symbols, Symbols, Symbols))
        ensures
            rows.0 == self.spec_visible(0),
            rows.1 == self.spec_visible(1),
            rows.2 == self.spec_visible(2),
    {
        let mid = self.position_index();
        self.visible_at(mid)
    }

    /// The symbols in the three rows of this reel, top to bottom, were its middle row
    /// at index `mid` of the strip.
    pub fn visible_at(&self, mid: usize) -> (rows: (Symbols, Symbols, Symbols))
        requires
            mid < self.strip().len(),
        ensures
            rows.0 == visible_symbol(self.strip(), mid as int, 0),
            rows.1 == visible_symbol(self.strip(), mid as int, 1),
            rows.2 == visible_symbol(self.strip(), mid as int, 2),
    {
        proof {
            use_type_invariant(self);
        }
        let len = self.symbols.len();
        // (mid + len - 1) % len and (mid + 1) % len, without overflow
        let above = if mid == 0 {
            len - 1
        } else {
            mid - 1
        };
        let below = if mid + 1 == len {
            0
        } else {
            mid + 1
        };
        proof {
            let l = len as int;
            let m = mid as int;
            assert((m + 0 - 1 + l) % l == above as int) by {
                if m == 0 {
                    assert((l - 1) % l == l - 1) by (nonlinear_arith)
                        requires
                            l > 0,
                    ;
                } else {
                    assert((m - 1 + l) % l == m - 1) by (nonlinear_arith)
                        requires
                            0 < m < l,
                    ;
                }
            }
            assert((m + 1 - 1 + l) % l == m) by (nonlinear_arith)
                requires
                    0 <= m < l,
            ;
            assert((m + 2 - 1 + l) % l == below as int) by {
                if m + 1 == l {
                    assert((m + 1 + l) % l == 0) by (nonlinear_arith)
                        requires
                            m + 1 == l,
                            l > 0,
                    ;
                } else {
                    assert((m + 1 + l) % l == m + 1) by (nonlinear_arith)
                        requires
                            0 <= m,
                            m + 1 < l,
                    ;
                }
            }
        }
        (self.symbols[above], self.symbols[mid], self.symbols[below])
    }
}

/// The three rows of symbols on show across five reels: `grid[row][column]`.
pub open spec fn visible_grid(reels: [Reel; 5]) -> Seq<Seq<Symbols>> {
    Seq::new(3, |row: int| Seq::new(5, |col: int| reels[col].spec_visible(row)))
}

/// The seen forms of a list of lines.
pub open spec fn lines_view(lines: Seq<Paylines>) -> Seq<(int, Symbols, Seq<(usize, usize)>)> {
    lines.map_values(|p: Paylines| p@)
}

/// The line of each kind below `kinds` that pays on `grid`, in the order of the kinds.
pub open spec fn found_lines_upto(grid: Seq<Seq<Symbols>>, kinds: int) -> Seq<
    (int, Symbols, Seq<(usize, usize)>),
>
    decreases kinds,
{
    if kinds <= 0 {
        seq![]
    } else {
        found_lines_upto(grid, kinds - 1) + match found_line(grid, kinds - 1) {
            Some(line) => seq![line],
            None => seq![],
        }
    }
}

/// Every line that pays on `grid`, in the order the machine checks them.
pub open spec fn found_lines(grid: Seq<Seq<Symbols>>) -> Seq<(int, Symbols, Seq<(usize, usize)>)> {
    found_lines_upto(grid, 11)
}

/// The lines found among the first `kinds` kinds: each is the paying line of its kind,
/// they come in increasing order of kind, and every kind below `kinds` whose line pays
/// is among them.
pub proof fn lemma_found_lines_upto(grid: Seq<Seq<Symbols>>, kinds: int)
    requires
        0 <= kinds <= 11,
    ensures
        forall|i: int|
            0 <= i < found_lines_upto(grid, kinds).len() ==> {
                &&& 0 <= (#[trigger] found_lines_upto(grid, kinds)[i]).0 < kinds
                &&& found_line(grid, found_lines_upto(grid, kinds)[i].0) == Some(
                    found_lines_upto(grid, kinds)[i],
                )
            },
        forall|i: int, j: int|
            0 <= i < j < found_lines_upto(grid, kinds).len() ==> (#[trigger] found_lines_upto(
                grid,
                kinds,
            )[i]).0 < (#[trigger] found_lines_upto(grid, kinds)[j]).0,
        forall|k: int|
            0 <= k < kinds && (#[trigger] found_line(grid, k)) is Some ==> exists|i: int|
                0 <= i < found_lines_upto(grid, kinds).len() && found_lines_upto(grid, kinds)[i].0
                    == k,
    decreases kinds,
{
    if kinds > 0 {
        lemma_found_lines_upto(grid, kinds - 1);
        let prev = found_lines_upto(grid, kinds - 1);
        let cur = found_lines_upto(grid, kinds);
        match found_line(grid, kinds - 1) {
            Some(line) => {
                assert(cur == prev + seq![line]);
                assert(line.0 == kinds - 1);
                assert forall|k: int|
                    0 <= k < kinds && (#[trigger] found_line(grid, k)) is Some implies exists|i: int|
                    0 <= i < cur.len() && cur[i].0 == k by {
                    if k == kinds - 1 {
                        assert(cur[prev.len() as int].0 == k);
                    } else {
                        let i = choose|i: int| 0 <= i < prev.len() && prev[i].0 == k;
                        assert(cur[i] == prev[i]);
                    }
                }
            },
            None => {
                assert(cur =~= prev);
            },
        }
    }
}

/// The lines that pay on a grid, as a machine collects them: each is the paying line of
/// its kind, each kind at most once, in the order of the kinds, and none is missed.
pub proof fn lemma_found_lines(grid: Seq<Seq<Symbols>>)
    ensures
        forall|i: int|
            0 <= i < found_lines(grid).len() ==> {
                &&& 0 <= (#[trigger] found_lines(grid)[i]).0 < 11
                &&& found_line(grid, found_lines(grid)[i].0) == Some(found_lines(grid)[i])
            },
        forall|i: int, j: int|
            0 <= i < j < found_lines(grid).len() ==> (#[trigger] found_lines(grid)[i]).0
                < (#[trigger] found_lines(grid)[j]).0,
        forall|k: int|
            0 <= k < 11 && (#[trigger] found_line(grid, k)) is Some ==> exists|i: int|
                0 <= i < found_lines(grid).len() && found_lines(grid)[i].0 == k,
{
    lemma_found_lines_upto(grid, 11);
}

/// A grid of three rows of five symbols holds every line of every kind.
pub proof fn lemma_full_grid_holds_lines(grid: Seq<Seq<Symbols>>, kind: int)
    requires
        grid.len() == 3,
        forall|r: int| 0 <= r < 3 ==> #[trigger] grid[r].len() == 5,
        0 <= kind < 11,
    ensures
        positions_in_bounds(grid, line_positions(kind)),
{
    let p = line_positions(kind);
    assert forall|i: int| 0 <= i < p.len() implies {
        &&& (#[trigger] p[i]).0 < grid.len()
        &&& p[i].1 < grid[p[i].0 as int].len()
    } by {
        assert(p[i].0 < 3 && p[i].1 < 5);
    }
}

/// Appends `found` to `lines` when there is one.
fn push_found(lines: &mut Vec<Paylines>, found: Option<Paylines>)
    ensures
        final(lines)@ == old(lines)@ + match found {
            Some(p) => seq![p],
            None => seq![],
        },
{
    match found {
        Some(p) => lines.push(p),
        None => {
            assert(old(lines)@ + seq![] =~= old(lines)@);
        },
    }
}

/// A slot machine: five reels, a title, and the lines it won on its last spin.
#[derive(Debug)]
pub struct Machine {
    pub reels: [Reel; 5],
    pub name: String,
    pub paylines: Vec<Paylines>,
}

impl Machine {
    /// Create a specific number of machines with default impl
    pub fn create_n_machines(count: i32) -> (machines: Vec<Self>)
        ensures
            machines@.len() == (if count > 0 { count as int } else { 0 }),
            forall|i: int|
                0 <= i < machines@.len() ==> #[trigger] machines@[i].is_fresh(i + 1),
    {
        let mut machines: Vec<Self> = Vec::new();
        let mut i: i32 = 0;
        while i < count
            invariant
                0 <= i,
                i <= count || i == 0,
                machines@.len() == i as int,
                forall|j: int| 0 <= j < machines@.len() ==> #[trigger] machines@[j].is_fresh(j + 1),
            decreases count - i,
        {
            machines.push(Self::new(i + 1));
            i = i + 1;
        }
        machines
    }

    /// A machine just made as number `machine_num`: its title, no lines won yet,
    /// and each reel a rearrangement of the reel strip, its middle row at the
    /// first symbol.
    pub open spec fn is_fresh(self, machine_num: int) -> bool {
        &&& self.name@ == spec_machine_name(machine_num)
        &&& self.paylines@.len() == 0
        &&& forall|c: int|
            0 <= c < 5 ==> {
                &&& (#[trigger] self.reels[c]).strip().to_multiset()
                    == spec_reel_strip().to_multiset()
                &&& self.reels[c].strip().len() == spec_reel_strip().len()
                &&& self.reels[c].position() == 0
            }
    }

    /// Make a new machine with all the reels set
    pub fn new(machine_num: i32) -> (machine: Self)
        ensures
            machine.is_fresh(machine_num as int),
    {
        let machine = Self {
            reels: [Reel::new(0), Reel::new(1), Reel::new(2), Reel::new(3), Reel::new(4)],
            name: machine_name(machine_num),
            paylines: Vec::new(),
        };
        assert forall|c: int| 0 <= c < 5 implies {
            &&& (#[trigger] machine.reels[c]).strip().to_multiset()
                == spec_reel_strip().to_multiset()
            &&& machine.reels[c].strip().len() == spec_reel_strip().len()
            &&& machine.reels[c].position() == 0
        } by {
            assert(c == 0 || c == 1 || c == 2 || c == 3 || c == 4);
        }
        machine
    }

    /// Spin the reels on the machine: each reel keeps its strip and stops at a
    /// random place; the title and the lines are left as they were.
    pub fn spin(&mut self)
        ensures
            final(self).name == old(self).name,
            final(self).paylines == old(self).paylines,
            forall|c: int| 0 <= c < 5 ==> #[trigger] final(self).reels[c].strip() == old(self).reels[c].strip(),
            forall|c: int|
                0 <= c < 5 ==> #[trigger] final(self).reels[c].position() < final(self).reels[c].strip().len(),
    {
        let mut rng = thread_rng();
        let mut i: usize = 0;
        while i < 5
            invariant
                i <= 5,
                self.name == old(self).name,
                self.paylines == old(self).paylines,
                forall|c: int| 0 <= c < 5 ==> #[trigger] self.reels[c].strip() == old(self).reels[c].strip(),
                forall|c: int|
                    0 <= c < i ==> #[trigger] self.reels[c].position() < self.reels[c].strip().len(),
            decreases 5 - i,
        {
            self.reels[i].spin(&mut rng);
            i = i + 1;
        }
    }

    /// Check every line against the symbols on show and add the lines that pay,
    /// in the order they are checked.
    pub fn get_all_paylines(&mut self)
        ensures
            final(self).reels == old(self).reels,
            final(self).name == old(self).name,
            final(self).paylines@.len() >= old(self).paylines@.len(),
            final(self).paylines@.subrange(0, old(self).paylines@.len() as int)
                == old(self).paylines@,
            lines_view(final(self).paylines@) == lines_view(old(self).paylines@) + found_lines(
                visible_grid(old(self).reels),
            ),
    {
        let visible_symbols = self.get_visible_symbols();
        let ghost grid = visible_grid(self.reels);
        let mut slices: Vec<&[Symbols]> = Vec::new();
        let mut i: usize = 0;
        while i < 3
            invariant
                i <= 3,
                visible_symbols@.len() == 3,
                slices@.len() == i,
                forall|r: int| 0 <= r < i ==> (#[trigger] slices@[r])@ == visible_symbols@[r]@,
            decreases 3 - i,
        {
            slices.push(visible_symbols[i].as_slice());
            i = i + 1;
        }
        let view = slices.as_slice();
        assert(grid_of(view) =~= grid);
        let ghost old_lines = self.paylines@;
        proof {
            assert forall|k: int| 0 <= k < 11 implies positions_in_bounds(
                grid_of(view),
                line_positions(k),
            ) by {
                lemma_full_grid_holds_lines(grid, k);
            }
            assert(lines_view(self.paylines@) =~= lines_view(old_lines) + found_lines_upto(grid, 0));
            assert(self.paylines@.subrange(0, old_lines.len() as int) =~= old_lines);
        }
        let found = check_hor_sm(view);
        self.push_line(found, Ghost(grid), Ghost(old_lines), Ghost(0));
        let found = check_above_sm(view);
        self.push_line(found, Ghost(grid), Ghost(old_lines), Ghost(1));
        let found = check_below_sm(view);
        self.push_line(found, Ghost(grid), Ghost(old_lines), Ghost(2));
        let found = check_zig_sm(view);
        self.push_line(found, Ghost(grid), Ghost(old_lines), Ghost(3));
        let found = check_zag_sm(view);
        self.push_line(found, Ghost(grid), Ghost(old_lines), Ghost(4));
        let found = check_hor_xl(view);
        self.push_line(found, Ghost(grid), Ghost(old_lines), Ghost(5));
        let found = check_zig(view);
        self.push_line(found, Ghost(grid), Ghost(old_lines), Ghost(6));
        let found = check_zag(view);
        self.push_line(found, Ghost(grid), Ghost(old_lines), Ghost(7));
        let found = check_above(view);
        self.push_line(found, Ghost(grid), Ghost(old_lines), Ghost(8));
        let found = check_below(view);
        self.push_line(found, Ghost(grid), Ghost(old_lines), Ghost(9));
        let found = check_eye(view);
        self.push_line(found, Ghost(grid), Ghost(old_lines), Ghost(10));
    }

    /// Adds the result of the checker of line kind `kind` to the lines won.
    fn push_line(
        &mut self,
        found: Option<Paylines>,
        Ghost(grid): Ghost<Seq<Seq<Symbols>>>,
        Ghost(old_lines): Ghost<Seq<Paylines>>,
        Ghost(kind): Ghost<int>,
    )
        requires
            0 <= kind < 11,
            opt_view(found) == found_line(grid, kind),
            old(self).paylines@.len() >= old_lines.len(),
            old(self).paylines@.subrange(0, old_lines.len() as int) == old_lines,
            lines_view(old(self).paylines@) == lines_view(old_lines) + found_lines_upto(grid, kind),
        ensures
            final(self).reels == old(self).reels,
            final(self).name == old(self).name,
            final(self).paylines@.len() >= old_lines.len(),
            final(self).paylines@.subrange(0, old_lines.len() as int) == old_lines,
            lines_view(final(self).paylines@) == lines_view(old_lines) + found_lines_upto(
                grid,
                kind + 1,
            ),
    {
        let ghost before = self.paylines@;
        let ghost found_ghost = found;
        push_found(&mut self.paylines, found);
        proof {
            let after = self.paylines@;
            assert(after.subrange(0, old_lines.len() as int) =~= old_lines) by {
                assert forall|j: int| 0 <= j < old_lines.len() implies after[j] == old_lines[j] by {
                    assert(after[j] == before[j]);
                    assert(before.subrange(0, old_lines.len() as int)[j] == before[j]);
                }
            }
            let prev = found_lines_upto(grid, kind);
            assert(found_lines_upto(grid, kind + 1) == prev + match found_line(grid, kind) {
                Some(line) => seq![line],
                None => seq![],
            });
            match found_ghost {
                Some(p) => {
                    assert(after =~= before.push(p));
                    assert(lines_view(after) =~= lines_view(before).push(p@));
                    assert(lines_view(after) =~= lines_view(old_lines) + prev + seq![p@]);
                },
                None => {
                    assert(after =~= before);
                    assert(prev + seq![] =~= prev);
                },
            }
        }
    }

    /// The symbols on show, as three rows (top, middle, bottom) of five symbols each.
    fn get_visible_symbols(&self) -> (rows: Vec<Vec<Symbols>>)
        ensures
            rows@.len() == 3,
            forall|r: int| 0 <= r < 3 ==> (#[trigger] rows@[r])@ == visible_grid(self.reels)[r],
    {
        let mut top: Vec<Symbols> = Vec::new();
        let mut middle: Vec<Symbols> = Vec::new();
        let mut bottom: Vec<Symbols> = Vec::new();
        let mut i: usize = 0;
        while i < 5
            invariant
                i <= 5,
                top@.len() == i,
                middle@.len() == i,
                bottom@.len() == i,
                forall|c: int| 0 <= c < i ==> #[trigger] top@[c] == self.reels[c].spec_visible(0),
                forall|c: int| 0 <= c < i ==> #[trigger] middle@[c] == self.reels[c].spec_visible(1),
                forall|c: int| 0 <= c < i ==> #[trigger] bottom@[c] == self.reels[c].spec_visible(2),
            decreases 5 - i,
        {
            let (above, mid, below) = self.reels[i].visible();
            top.push(above);
            middle.push(mid);
            bottom.push(below);
            i = i + 1;
        }
        let rows = vec![top, middle, bottom];
        assert(rows@[0]@ =~= visible_grid(self.reels)[0]);
        assert(rows@[1]@ =~= visible_grid(self.reels)[1]);
        assert(rows@[2]@ =~= visible_grid(self.reels)[2]);
        rows
    }
}

/// What a list of lines pays in all on the given bet.
pub open spec fn lines_payout(lines: Seq<(int, Symbols, Seq<(usize, usize)>)>, bet: int) -> int
    decreases lines.len(),
{
    if lines.len() == 0 {
        0
    } else {
        lines_payout(lines.drop_last(), bet) + line_payout(lines.last().0, lines.last().1, bet)
    }
}

/// What a list of machines pays in all on the given bet, each machine paying for the lines it won.
pub open spec fn machines_payout(machines: Seq<Machine>, bet: int) -> int
    decreases machines.len(),
{
    if machines.len() == 0 {
        0
    } else {
        machines_payout(machines.drop_last(), bet) + lines_payout(
            lines_view(machines.last().paylines@),
            bet,
        )
    }
}

/// A line pays nothing negative on a bet that is not negative, and nothing positive on a
/// bet that is not positive.
pub proof fn lemma_line_payout_sign(kind: int, symbol: Symbols, bet: int)
    ensures
        bet >= 0 ==> line_payout(kind, symbol, bet) >= 0,
        bet <= 0 ==> line_payout(kind, symbol, bet) <= 0,
{
    let v = symbol_value(symbol);
    let m = line_multiplier(kind);
    assert(v >= 0 && m >= 1);
    assert(bet >= 0 ==> v * m * bet >= 0) by (nonlinear_arith)
        requires
            v >= 0,
            m >= 1,
    ;
    assert(bet <= 0 ==> v * m * bet <= 0) by (nonlinear_arith)
        requires
            v >= 0,
            m >= 1,
    ;
}

/// Every running total of what a list of lines pays lies between nothing and the full total.
pub proof fn lemma_lines_payout_prefix(lines: Seq<(int, Symbols, Seq<(usize, usize)>)>, bet: int, i: int)
    requires
        0 <= i <= lines.len(),
    ensures
        bet >= 0 ==> 0 <= lines_payout(lines.take(i), bet) <= lines_payout(lines, bet),
        bet <= 0 ==> lines_payout(lines, bet) <= lines_payout(lines.take(i), bet) <= 0,
    decreases lines.len(),
{
    if lines.len() > 0 {
        let rest = lines.drop_last();
        lemma_line_payout_sign(lines.last().0, lines.last().1, bet);
        if i == lines.len() {
            assert(lines.take(i) =~= lines);
            lemma_lines_payout_prefix(rest, bet, rest.len() as int);
            assert(rest.take(rest.len() as int) =~= rest);
        } else {
            lemma_lines_payout_prefix(rest, bet, i);
            assert(rest.take(i) =~= lines.take(i));
        }
    } else {
        assert(lines.take(i) =~= lines);
    }
}

/// Every running total of what a list of machines pays lies between nothing and the full total.
pub proof fn lemma_machines_payout_prefix(machines: Seq<Machine>, bet: int, i: int)
    requires
        0 <= i <= machines.len(),
    ensures
        bet >= 0 ==> 0 <= machines_payout(machines.take(i), bet) <= machines_payout(machines, bet),
        bet <= 0 ==> machines_payout(machines, bet) <= machines_payout(machines.take(i), bet) <= 0,
    decreases machines.len(),
{
    if machines.len() > 0 {
        let rest = machines.drop_last();
        let lines = lines_view(machines.last().paylines@);
        lemma_lines_payout_prefix(lines, bet, lines.len() as int);
        assert(lines.take(lines.len() as int) =~= lines);
        if i == machines.len() {
            assert(machines.take(i) =~= machines);
            lemma_machines_payout_prefix(rest, bet, rest.len() as int);
            assert(rest.take(rest.len() as int) =~= rest);
        } else {
            lemma_machines_payout_prefix(rest, bet, i);
            assert(rest.take(i) =~= machines.take(i));
        }
    } else {
        assert(machines.take(i) =~= machines);
    }
}

/// The value fits in an `i32`.
pub open spec fn fits_i32(v: int) -> bool {
    i32::MIN <= v <= i32::MAX
}

impl Machine {
    /// What the lines this machine won pay in all on the given bet, or `None` when that
    /// does not fit in an `i32`.
    pub fn total_payout(&self, bet: i32) -> (total: Option<i32>)
        ensures
            total == (if fits_i32(lines_payout(lines_view(self.paylines@), bet as int)) {
                Some(lines_payout(lines_view(self.paylines@), bet as int) as i32)
            } else {
                None
            }),
    {
        let ghost lines = lines_view(self.paylines@);
        let mut total: i32 = 0;
        let mut i: usize = 0;
        while i < self.paylines.len()
            invariant
                i <= self.paylines@.len(),
                lines == lines_view(self.paylines@),
                total == lines_payout(lines.take(i as int), bet as int),
            decreases self.paylines@.len() - i,
        {
            let ghost line = self.paylines@[i as int]@;
            proof {
                lemma_lines_payout_prefix(lines, bet as int, i as int);
                lemma_lines_payout_prefix(lines, bet as int, i + 1);
                assert(lines.take(i + 1).drop_last() =~= lines.take(i as int));
                assert(lines.take(i + 1).last() == line);
                assert(lines_payout(lines.take(i + 1), bet as int) == lines_payout(
                    lines.take(i as int),
                    bet as int,
                ) + line_payout(line.0, line.1, bet as int));
                lemma_line_payout_sign(line.0, line.1, bet as int);
            }
            let payout = match self.paylines[i].checked_payout(bet) {
                Some(p) => p,
                None => return None,
            };
            total = match total.checked_add(payout) {
                Some(t) => t,
                None => return None,
            };
            i = i + 1;
        }
        assert(lines.take(i as int) =~= lines);
        Some(total)
    }
}

/// What all the machines pay in all on the given bet, or `None` when that does not fit in
/// an `i32`: the winnings of a play on several machines are added together.
pub fn total_winnings(machines: &[Machine], bet: i32) -> (total: Option<i32>)
    ensures
        total == (if fits_i32(machines_payout(machines@, bet as int)) {
            Some(machines_payout(machines@, bet as int) as i32)
        } else {
            None
        }),
{
    let ghost ms = machines@;
    let mut total: i32 = 0;
    let mut i: usize = 0;
    while i < machines.len()
        invariant
            i <= ms.len(),
            ms == machines@,
            total == machines_payout(ms.take(i as int), bet as int),
        decreases ms.len() - i,
    {
        let ghost lines = lines_view(ms[i as int].paylines@);
        proof {
            lemma_machines_payout_prefix(ms, bet as int, i as int);
            lemma_machines_payout_prefix(ms, bet as int, i + 1);
            assert(ms.take(i + 1).drop_last() =~= ms.take(i as int));
            assert(ms.take(i + 1).last() == ms[i as int]);
            assert(machines_payout(ms.take(i + 1), bet as int) == machines_payout(
                ms.take(i as int),
                bet as int,
            ) + lines_payout(lines, bet as int));
            lemma_lines_payout_prefix(lines, bet as int, lines.len() as int);
            assert(lines.take(lines.len() as int) =~= lines);
        }
        let payout = match machines[i].total_payout(bet) {
            Some(p) => p,
            None => return None,
        };
        total = match total.checked_add(payout) {
            Some(t) => t,
            None => return None,
        };
        i = i + 1;
    }
    assert(ms.take(i as int) =~= ms);
    Some(total)
}

} // verus!
