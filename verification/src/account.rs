//! Accounts that take deposits and withdrawals.

use vstd::prelude::*;

verus! {

/// Why an account refused an operation.
#[derive(Clone, Copy, Debug, PartialEq, Eq, Structural)]
pub enum AccountError {
    /// The withdrawal is larger than the balance.
    InsufficientFunds,
}

impl AccountError {
    /// The text that the error is reported with.
    pub open spec fn text(self) -> Seq<char> {
        "Insufficient funds for withdrawal."@
    }

    /// Writes the error for a reader.
    pub fn message(&self) -> (r: String)
        ensures
            r@ == self.text(),
    {
        "Insufficient funds for withdrawal.".to_owned()
    }
}

/// What every account does.
pub trait Account {
    /// The money in the account.
    spec fn funds(&self) -> nat;

    /// Puts `amount` into the account.
    fn deposit(&mut self, amount: u32)
        requires
            old(self).funds() + amount <= u32::MAX,
        ensures
            final(self).funds() == old(self).funds() + amount,
    ;

    /// Takes `amount` out of the account, unless it holds less: then the
    /// balance stays.
    fn withdraw(&mut self, amount: u32) -> (r: Result<(), AccountError>)
        ensures
            amount <= old(self).funds() ==> r is Ok && final(self).funds() == old(self).funds()
                - amount,
            amount > old(self).funds() ==> r == Err::<(), AccountError>(
                AccountError::InsufficientFunds,
            ) && final(self).funds() == old(self).funds(),
    ;

    /// The money in the account.
    fn balance(&self) -> (r: u32)
        ensures
            r == self.funds(),
    ;
}

/// An account at a bank.
#[derive(Debug)]
pub struct BankAccount {
    pub account_number: u32,
    pub holder_name: String,
    pub balance: u32,
}

impl BankAccount {
    /// An account with the number, holder and opening balance given.
    pub fn new(account_number: u32, holder_name: String, balance: u32) -> (r: BankAccount)
        ensures
            r.account_number == account_number,
            r.holder_name == holder_name,
            r.balance == balance,
    {
        BankAccount { account_number, holder_name, balance }
    }
}

impl Account for BankAccount {
    open spec fn funds(&self) -> nat {
        self.balance as nat
    }

    fn deposit(&mut self, amount: u32)
        ensures
            final(self).account_number == old(self).account_number,
            final(self).holder_name == old(self).holder_name,
    {
        self.balance = self.balance + amount;
    }

    fn withdraw(&mut self, amount: u32) -> (r: Result<(), AccountError>)
        ensures
            final(self).account_number == old(self).account_number,
            final(self).holder_name == old(self).holder_name,
    {
        if amount > self.balance {
            Err(AccountError::InsufficientFunds)
        } else {
            self.balance = self.balance - amount;
            Ok(())
        }
    }

    fn balance(&self) -> (r: u32) {
        self.balance
    }
}

} // verus!
