use vstd::prelude::*;

verus! {

/// The symbols that can appear on a reel.
#[derive(Clone, Copy, Debug, PartialEq, Eq, Structural, Hash)]
pub enum Symbols {
    Circle,
    Hashtag,
    Dollar,
    AtSign,
    Seven,
    Asterisk,
    Ampersand,
    Jackpot,
    Wild,
}

/// The credit value of a symbol: low symbols 1, medium 2, the jackpot 7.
/// The wild has no value of its own.
pub open spec fn symbol_value(s: Symbols) -> int {
    match s {
        Symbols::Circle | Symbols::Hashtag | Symbols::Dollar | Symbols::AtSign => 1,
        Symbols::Seven | Symbols::Asterisk | Symbols::Ampersand => 2,
        Symbols::Jackpot => 7,
        Symbols::Wild => 0,
    }
}

/// The character that shows a symbol on screen.
pub open spec fn symbol_char(s: Symbols) -> char {
    match s {
        Symbols::Circle => 'O',
        Symbols::Hashtag => '#',
        Symbols::Dollar => '$',
        Symbols::AtSign => '@',
        Symbols::Seven => '7',
        Symbols::Asterisk => '*',
        Symbols::Ampersand => '&',
        Symbols::Jackpot => '!',
        Symbols::Wild => 'X',
    }
}

/// The symbols come in tiers: Circle, Hashtag, Dollar and At Sign are worth 1, Seven,
/// Asterisk and Ampersand 2, the Jackpot 7, the most of any symbol; the Wild is worth
/// nothing of its own and no real symbol is worth nothing.
pub proof fn lemma_symbol_tiers(s: Symbols)
    ensures
        symbol_value(s) == 1 <==> (s == Symbols::Circle || s == Symbols::Hashtag || s
            == Symbols::Dollar || s == Symbols::AtSign),
        symbol_value(s) == 2 <==> (s == Symbols::Seven || s == Symbols::Asterisk || s
            == Symbols::Ampersand),
        symbol_value(s) == 7 <==> s == Symbols::Jackpot,
        symbol_value(s) == 0 <==> s == Symbols::Wild,
        symbol_value(s) <= symbol_value(Symbols::Jackpot),
{
}

impl Symbols {
    pub fn get_value(&self) -> (v: i32)
        ensures
            v == symbol_value(*self),
    {
        match self {
            Symbols::Circle | Symbols::Hashtag | Symbols::Dollar | Symbols::AtSign => 1,
            Symbols::Seven | Symbols::Asterisk | Symbols::Ampersand => 2,
            Symbols::Jackpot => 7,
            Symbols::Wild => 0,
        }
    }

    pub fn display_char(&self) -> (c: char)
        ensures
            c == symbol_char(*self),
    {
        match self {
            Symbols::Circle => 'O',
            Symbols::Hashtag => '#',
            Symbols::Dollar => '$',
            Symbols::AtSign => '@',
            Symbols::Seven => '7',
            Symbols::Asterisk => '*',
            Symbols::Ampersand => '&',
            Symbols::Jackpot => '!',
            Symbols::Wild => 'X',
        }
    }
}

/// The symbols printed on every reel strip, before the reel is shuffled.
pub open spec fn spec_reel_strip() -> Seq<Symbols> {
    seq![
        Symbols::Circle, Symbols::Hashtag, Symbols::Dollar, Symbols::AtSign,
        Symbols::Seven, Symbols::Circle, Symbols::Hashtag, Symbols::Dollar,
        Symbols::AtSign, Symbols::Asterisk, Symbols::Jackpot, Symbols::Circle,
        Symbols::Hashtag, Symbols::Dollar, Symbols::AtSign, Symbols::Ampersand,
        Symbols::Seven, Symbols::Asterisk, Symbols::Ampersand, Symbols::Wild,
    ]
}

/// The strip of reel `reel_num` (one of the five reels).
pub fn reel_strip(reel_num: usize) -> (strip: Vec<Symbols>)
    requires
        reel_num < 5,
    ensures
        strip@ == spec_reel_strip(),
{
    vec![
        Symbols::Circle, Symbols::Hashtag, Symbols::Dollar, Symbols::AtSign,
        Symbols::Seven, Symbols::Circle, Symbols::Hashtag, Symbols::Dollar,
        Symbols::AtSign, Symbols::Asterisk, Symbols::Jackpot, Symbols::Circle,
        Symbols::Hashtag, Symbols::Dollar, Symbols::AtSign, Symbols::Ampersand,
        Symbols::Seven, Symbols::Asterisk, Symbols::Ampersand, Symbols::Wild,
    ]
}

} // verus!
