use vstd::prelude::*;

verus! {

/// The player's saved state: the credit balance and how many spins were played.
#[derive(Debug, Clone, Copy, PartialEq, Eq, Structural)]
pub struct Database {
    pub balance: i32,
    pub total_spins: i32,
}

/// The credits a new player starts with.
pub const STARTING_BALANCE: i32 = 1000;

impl Default for Database {
    /// A new player: 1,000 credits and no spins yet.
    fn default() -> (db: Self)
        ensures
            db.balance == STARTING_BALANCE,
            db.balance == 1000,
            db.total_spins == 0,
    {
        Self { balance: STARTING_BALANCE, total_spins: 0 }
    }
}

impl Database {
    /// Add (or, when `amount` is negative, take away) credits.
    pub fn add_credits(&mut self, amount: i32)
        requires
            i32::MIN <= old(self).balance + amount <= i32::MAX,
        ensures
            final(self).balance == old(self).balance + amount,
            final(self).total_spins == old(self).total_spins,
    {
        self.balance = self.balance + amount;
    }

    /// Wager `bet` credits on each of `count` machines: the total wager `bet * count`
    /// leaves the balance and `count` spins are counted. Returns the total wager.
    pub fn place_bets(&mut self, bet: i32, count: i32) -> (total_bet: i32)
        requires
            i32::MIN <= bet * count <= i32::MAX,
            i32::MIN <= old(self).balance - bet * count <= i32::MAX,
            i32::MIN <= old(self).total_spins + count <= i32::MAX,
        ensures
            total_bet == bet * count,
            final(self).balance == old(self).balance - bet * count,
            final(self).total_spins == old(self).total_spins + count,
    {
        let total_bet = bet * count;
        self.balance = self.balance - total_bet;
        self.total_spins = self.total_spins + count;
        total_bet
    }
}

} // verus!
