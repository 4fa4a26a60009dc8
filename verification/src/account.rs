//! The single bank account: a name, a non-negative balance in the base
//! currency, and a registration flag.  The mutators are precondition-only
//! state transitions; input validation lives with the command layer.

use vstd::prelude::*;

use crate::fixed::Fixed;

verus! {

/// A bank account.  Created unregistered with a zero balance; the balance
/// never becomes negative.
pub struct Account {
    pub name: String,
    pub balance: Fixed,
    pub registered: bool,
}

impl Account {
    /// The account's invariant: the balance is never negative.
    pub open spec fn wf(self) -> bool {
        self.balance.micros >= 0
    }

    /// A new, unregistered account with an empty name and zero balance.
    pub fn new() -> (r: Account)
        ensures
            r.name@ == Seq::<char>::empty(),
            r.balance.micros == 0,
            !r.registered,
            r.wf(),
    {
        Account { name: String::new(), balance: Fixed { micros: 0 }, registered: false }
    }

    /// Set the account's name without touching anything else.
    pub fn edit_name(&mut self, name: &str)
        ensures
            final (self).name@ == name@,
            final (self).balance == old(self).balance,
            final (self).registered == old(self).registered,
    {
        self.name = name.to_owned();
    }

    /// Register the account under `name`: records the name and marks the
    /// account registered.
    pub fn register(&mut self, name: &str)
        ensures
            final (self).name@ == name@,
            final (self).balance == old(self).balance,
            final (self).registered,
    {
        self.edit_name(name);
        self.registered = true;
    }

    /// Whether the account has been registered.
    pub fn is_registered(&self) -> (b: bool)
        ensures
            b == self.registered,
    {
        self.registered
    }

    /// Add `amount` to the balance.  Pure state transition: the caller is
    /// responsible for having validated `amount` beforehand.
    pub fn deposit(&mut self, amount: Fixed)
        requires
            amount.micros > 0,
            old(self).balance.micros + amount.micros <= i64::MAX,
        ensures
            final (self).balance.micros == old(self).balance.micros + amount.micros,
            final (self).name == old(self).name,
            final (self).registered == old(self).registered,
    {
        self.balance = Fixed { micros: self.balance.micros + amount.micros };
    }

    /// Subtract `amount` from the balance.  Pure state transition: the caller
    /// is responsible for having checked the funds beforehand, so the balance
    /// stays non-negative.
    pub fn withdraw(&mut self, amount: Fixed)
        requires
            0 < amount.micros <= old(self).balance.micros,
        ensures
            final (self).balance.micros == old(self).balance.micros - amount.micros,
            final (self).name == old(self).name,
            final (self).registered == old(self).registered,
            final (self).wf(),
    {
        self.balance = Fixed { micros: self.balance.micros - amount.micros };
    }
}

} // verus!
