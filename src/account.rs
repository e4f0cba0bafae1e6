use vstd::prelude::*;
use crate::amount::{
    add_result, fits, group_amount, spec_amount, sub_result, Amount, AmountOpError,
};

verus! {

/// The state of an account: settled funds, funds held by open disputes, and the lock.
pub ghost struct AccountView {
    pub total: Amount,
    pub held: Amount,
    pub locked: bool,
}

/// The state of an account that no event has touched yet.
pub open spec fn zero_account() -> AccountView {
    AccountView { total: spec_amount(0), held: spec_amount(0), locked: false }
}

/// `total - held`, or zero where that difference does not fit.
pub open spec fn available_of(a: AccountView) -> Amount {
    if fits(a.total@ - a.held@) {
        spec_amount(a.total@ - a.held@)
    } else {
        spec_amount(0)
    }
}

/// Adds `x` to `total`; on overflow the account is unchanged.
pub open spec fn deposit_step(a: AccountView, x: Amount) -> (AccountView, Result<(), AmountOpError>) {
    match add_result(a.total, x) {
        Ok(t) => (AccountView { total: t, ..a }, Ok(())),
        Err(e) => (a, Err(e)),
    }
}

/// Takes `x` from `total`; on overflow the account is unchanged.
pub open spec fn withdraw_step(a: AccountView, x: Amount) -> (AccountView, Result<(), AmountOpError>) {
    match sub_result(a.total, x) {
        Ok(t) => (AccountView { total: t, ..a }, Ok(())),
        Err(e) => (a, Err(e)),
    }
}

/// Adds `x` to `held`; on overflow the account is unchanged.
pub open spec fn hold_step(a: AccountView, x: Amount) -> (AccountView, Result<(), AmountOpError>) {
    match add_result(a.held, x) {
        Ok(h) => (AccountView { held: h, ..a }, Ok(())),
        Err(e) => (a, Err(e)),
    }
}

/// Takes `x` from `held`; on overflow the account is unchanged.
pub open spec fn release_step(a: AccountView, x: Amount) -> (AccountView, Result<(), AmountOpError>) {
    match sub_result(a.held, x) {
        Ok(h) => (AccountView { held: h, ..a }, Ok(())),
        Err(e) => (a, Err(e)),
    }
}

/// Locks the account, then takes `x` from `total` and, when `from_held`, from `held` too.
/// The lock stays even when the arithmetic fails; the balances change only if both steps fit.
pub open spec fn chargeback_step(a: AccountView, x: Amount, from_held: bool) -> (
    AccountView,
    Result<(), AmountOpError>,
) {
    let locked = AccountView { locked: true, ..a };
    let held = if from_held {
        sub_result(a.held, x)
    } else {
        Ok(a.held)
    };
    match (sub_result(a.total, x), held) {
        (Ok(t), Ok(h)) => (AccountView { total: t, held: h, locked: true }, Ok(())),
        (Err(e), _) => (locked, Err(e)),
        (_, Err(e)) => (locked, Err(e)),
    }
}

/// The balances of one client.
#[derive(Debug, Clone, Copy)]
pub struct Account {
    total: Amount,
    held: Amount,
    locked: bool,
}

impl View for Account {
    type V = AccountView;

    closed spec fn view(&self) -> AccountView {
        AccountView { total: self.total, held: self.held, locked: self.locked }
    }
}

impl Account {
    /// An account with no funds, unlocked.
    pub fn new() -> (r: Account)
        ensures
            r@ == zero_account(),
    {
        broadcast use group_amount;

        Account { total: Amount::new(0), held: Amount::new(0), locked: false }
    }

    pub fn total(&self) -> (r: Amount)
        ensures
            r == self@.total,
    {
        self.total
    }

    pub fn held(&self) -> (r: Amount)
        ensures
            r == self@.held,
    {
        self.held
    }

    /// `total - held`; zero should that difference not fit, which a sound history never causes.
    pub fn available(&self) -> (r: Amount)
        ensures
            r == available_of(self@),
    {
        broadcast use group_amount;

        match self.total.sub(self.held) {
            Ok(v) => v,
            Err(_) => Amount::new(0),
        }
    }

    pub fn is_locked(&self) -> (r: bool)
        ensures
            r == self@.locked,
    {
        self.locked
    }

    pub fn lock(&mut self)
        ensures
            final(self)@ == (AccountView { locked: true, ..old(self)@ }),
    {
        self.locked = true;
    }

    pub fn unlock(&mut self)
        ensures
            final(self)@ == (AccountView { locked: false, ..old(self)@ }),
    {
        self.locked = false;
    }

    pub fn deposit(&mut self, amount: Amount) -> (r: Result<(), AmountOpError>)
        ensures
            (final(self)@, r) == deposit_step(old(self)@, amount),
    {
        match self.total.add(amount) {
            Ok(value) => {
                self.total = value;
                Ok(())
            },
            Err(e) => Err(e),
        }
    }

    pub fn withdraw(&mut self, amount: Amount) -> (r: Result<(), AmountOpError>)
        ensures
            (final(self)@, r) == withdraw_step(old(self)@, amount),
    {
        match self.total.sub(amount) {
            Ok(value) => {
                self.total = value;
                Ok(())
            },
            Err(e) => Err(e),
        }
    }

    pub fn hold(&mut self, amount: Amount) -> (r: Result<(), AmountOpError>)
        ensures
            (final(self)@, r) == hold_step(old(self)@, amount),
    {
        match self.held.add(amount) {
            Ok(value) => {
                self.held = value;
                Ok(())
            },
            Err(e) => Err(e),
        }
    }

    pub fn release(&mut self, amount: Amount) -> (r: Result<(), AmountOpError>)
        ensures
            (final(self)@, r) == release_step(old(self)@, amount),
    {
        match self.held.sub(amount) {
            Ok(value) => {
                self.held = value;
                Ok(())
            },
            Err(e) => Err(e),
        }
    }

    pub fn chargeback(&mut self, amount: Amount, held: bool) -> (r: Result<(), AmountOpError>)
        ensures
            (final(self)@, r) == chargeback_step(old(self)@, amount, held),
    {
        self.lock();
        let new_held = if held {
            self.held.sub(amount)
        } else {
            Ok(self.held)
        };
        match (self.total.sub(amount), new_held) {
            (Ok(new_total), Ok(new_held)) => {
                self.total = new_total;
                self.held = new_held;
                Ok(())
            },
            (Err(e), _) => Err(e),
            (_, Err(e)) => Err(e),
        }
    }
}

impl Default for Account {
    fn default() -> (r: Account)
        ensures
            r@ == zero_account(),
    {
        Account::new()
    }
}

} // verus!
