# rspin

A terminal slot machine. Each machine has five reels with three visible rows;
eleven paylines are checked after every spin, and the wild symbol `X` stands in
for any symbol (a line of wilds alone pays nothing). A line pays
symbol value × line multiplier × bet.

Layout:

- `src/` — the verified library:
  - `symbols.rs` — the symbols, their values and the reel strip;
  - `paylines.rs` — the lines, their multipliers and payouts, and the checkers;
  - `machine.rs` — reels, machines, spinning, collecting winning lines and
    adding up winnings;
  - `animation_state.rs` — the phases a machine's animation goes through, with
    the proof that all machines stop on the same frame;
  - `display.rs` — what each frame shows: rows, lever, how each symbol is
    styled, the highlighted line and the text under each machine;
  - `text.rs` — decimal forms of numbers, built into strings;
  - `database.rs` — the player's balance and spin count.
- `app/` — the command line (`rspin play <bet> [count]`, `rspin balance`,
  `rspin cheat <amount>`), terminal drawing, and saving state as TOML.
- `tests/` — tests of the library on concrete values.
