//! The player's bankroll and the wager attached to a hand.
use vstd::prelude::*;

verus! {

/// A non-negative balance that can be withdrawn from and deposited to.
#[derive(Debug, Clone)]
pub struct Bank {
    balance: u32,
}

impl View for Bank {
    type V = nat;

    closed spec fn view(&self) -> nat {
        self.balance as nat
    }
}

impl Bank {
    pub fn new(balance: u32) -> (r: Self)
        ensures
            r@ == balance as nat,
    {
        Self { balance }
    }

    pub fn balance(&self) -> (r: u32)
        ensures
            r as nat == self@,
    {
        self.balance
    }

    /// Takes `amount` out of the bank if the balance covers it; otherwise
    /// returns `false` and leaves the bank unchanged.
    pub fn withdraw(&mut self, amount: u32) -> (r: bool)
        ensures
            r == (old(self)@ >= amount),
            r ==> final(self)@ == old(self)@ - amount,
            !r ==> *final(self) == *old(self),
    {
        if self.balance >= amount {
            self.balance = self.balance - amount;
            true
        } else {
            false
        }
    }

    /// Adds `amount` to the balance.
    pub fn deposit(&mut self, amount: u32)
        requires
            old(self)@ + amount <= u32::MAX,
        ensures
            final(self)@ == old(self)@ + amount,
    {
        self.balance = self.balance + amount;
    }
}

/// A wager attached to one player hand.
#[derive(Debug, Clone, Copy, PartialEq, Eq, Structural)]
pub struct Bet {
    pub amount: u32,
}

} // verus!
