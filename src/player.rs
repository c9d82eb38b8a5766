//! A participant at the table: a name, a hand and whether they deal.
use vstd::prelude::*;
use crate::hand::Hand;

verus! {

#[derive(Debug, Clone)]
pub struct Player {
    pub name: String,
    pub hand: Hand,
    pub dealer: bool,
}

impl Player {
    pub open spec fn name_spec(&self) -> Seq<char> {
        self.name@
    }

    pub open spec fn dealer_spec(&self) -> bool {
        self.dealer
    }

    /// The house: named "CPU", dealing, with an empty hand.
    pub fn default() -> (r: Self)
        ensures
            r.name_spec() == "CPU"@,
            r.hand@ == Seq::<crate::card::Card>::empty(),
            r.dealer_spec(),
    {
        Player { name: String::from_str("CPU"), hand: Hand::new(), dealer: true }
    }

    /// A player who does not deal, with an empty hand.
    pub fn new(name: String) -> (r: Self)
        ensures
            r.name_spec() == name@,
            r.hand@ == Seq::<crate::card::Card>::empty(),
            !r.dealer_spec(),
    {
        Player { hand: Hand::new(), dealer: false, name }
    }

    pub fn name(&self) -> (r: &str)
        ensures
            r@ == self.name_spec(),
    {
        self.name.as_str()
    }

    pub fn get_player_name(&self) -> (r: String)
        ensures
            r@ == self.name_spec(),
    {
        self.name.clone()
    }

    pub fn reset_hand(&mut self)
        ensures
            final(self).hand@ == Seq::<crate::card::Card>::empty(),
            final(self).name_spec() == old(self).name_spec(),
            final(self).dealer_spec() == old(self).dealer_spec(),
    {
        self.hand.clear_hand();
    }

    pub fn is_dealer(&self) -> (r: bool)
        ensures
            r == self.dealer_spec(),
    {
        self.dealer
    }

    pub fn set_dealer(&mut self, dealer: bool)
        ensures
            final(self).dealer_spec() == dealer,
            final(self).hand@ == old(self).hand@,
            final(self).name_spec() == old(self).name_spec(),
    {
        self.dealer = dealer;
    }
}

} // verus!
