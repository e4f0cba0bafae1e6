use vstd::prelude::*;
use crate::account::{
    chargeback_step, deposit_step, hold_step, release_step, withdraw_step, Account, AccountView,
};
use crate::amount::{neg_result, Amount, AmountOpError};
use crate::event::Event;

verus! {

/// The state of a transaction: the signed amount it moved, once known, and its dispute flags.
/// Each flag only ever goes from `false` to `true`.
pub ghost struct TransactionView {
    pub amount: Option<Amount>,
    pub disputed: bool,
    pub resolved: bool,
    pub chargebacked: bool,
}

/// The state of a transaction that only now is first referenced.
pub open spec fn fresh_transaction() -> TransactionView {
    TransactionView { amount: None, disputed: false, resolved: false, chargebacked: false }
}

/// When a deposit or a withdrawal arrives after a dispute that is still open, the dispute's
/// effect is applied at once: a chargeback if one came too, else a hold.
pub open spec fn catch_up_step(t: TransactionView, a: AccountView, x: Amount) -> (
    AccountView,
    Result<(), AmountOpError>,
) {
    if t.disputed && !t.resolved {
        if t.chargebacked {
            chargeback_step(a, x, false)
        } else {
            hold_step(a, x)
        }
    } else {
        (a, Ok(()))
    }
}

/// The rest of a deposit or a withdrawal whose signed amount is `x`, once its change to the
/// balance gave the account `a1` and the outcome `r1`: the late dispute catch-up, and the
/// amount recorded only when every step succeeded.
pub open spec fn settle_step(
    t: TransactionView,
    x: Amount,
    a1: AccountView,
    r1: Result<(), AmountOpError>,
) -> (TransactionView, AccountView, Result<(), AmountOpError>) {
    if r1 is Err {
        (t, a1, r1)
    } else {
        let (a2, r2) = catch_up_step(t, a1, x);
        if r2 is Err {
            (t, a2, r2)
        } else {
            (TransactionView { amount: Some(x), ..t }, a2, Ok(()))
        }
    }
}

/// What applying `ev` to a transaction in state `t` and its client's account `a` gives:
/// the new transaction, the new account, and the outcome.
pub open spec fn apply_step(t: TransactionView, ev: Event, a: AccountView) -> (
    TransactionView,
    AccountView,
    Result<(), AmountOpError>,
) {
    match ev {
        Event::Deposit { amount, .. } => {
            let (a1, r1) = deposit_step(a, amount);
            settle_step(t, amount, a1, r1)
        },
        Event::Withdrawal { amount, .. } => match neg_result(amount) {
            Err(e) => (t, a, Err(e)),
            Ok(negated) => {
                let (a1, r1) = if !t.chargebacked {
                    withdraw_step(a, amount)
                } else {
                    (a, Ok(()))
                };
                settle_step(t, negated, a1, r1)
            },
        },
        Event::Dispute { .. } => {
            let t1 = TransactionView { disputed: true, ..t };
            match t.amount {
                None => (t1, a, Ok(())),
                Some(x) => {
                    let (a1, r) = if t.chargebacked {
                        chargeback_step(a, x, false)
                    } else if t.resolved {
                        release_step(a, x)
                    } else {
                        hold_step(a, x)
                    };
                    (t1, a1, r)
                },
            }
        },
        Event::Resolve { .. } => {
            let t1 = TransactionView { resolved: true, ..t };
            match t.amount {
                Some(x) if t.disputed && !t.chargebacked => {
                    let (a1, r) = release_step(a, x);
                    (t1, a1, r)
                },
                _ => (t1, a, Ok(())),
            }
        },
        Event::Chargeback { .. } => {
            let t1 = TransactionView { chargebacked: true, ..t };
            match t.amount {
                Some(x) if t.disputed && !t.resolved => {
                    let (a1, r) = chargeback_step(a, x, true);
                    (t1, a1, r)
                },
                _ => (t1, a, Ok(())),
            }
        },
    }
}

/// The record of one transaction id and where its dispute stands.
#[derive(Debug, Clone, Copy)]
pub struct Transaction {
    amount: Option<Amount>,
    disputed: bool,
    resolved: bool,
    chargebacked: bool,
}

impl View for Transaction {
    type V = TransactionView;

    closed spec fn view(&self) -> TransactionView {
        TransactionView {
            amount: self.amount,
            disputed: self.disputed,
            resolved: self.resolved,
            chargebacked: self.chargebacked,
        }
    }
}

impl Transaction {
    pub fn new() -> (r: Transaction)
        ensures
            r@ == fresh_transaction(),
    {
        Transaction { amount: None, disputed: false, resolved: false, chargebacked: false }
    }

    /// The signed amount, or zero while it is not known.
    pub fn amount(&self) -> (r: Amount)
        ensures
            r@ == match self@.amount {
                Some(x) => x@,
                None => 0,
            },
    {
        match self.amount {
            Some(x) => x,
            None => Amount::new(0),
        }
    }

    /// Whether a deposit or a withdrawal has set the amount.
    pub fn has_amount(&self) -> (r: bool)
        ensures
            r == self@.amount is Some,
    {
        self.amount.is_some()
    }

    pub fn is_disputed(&self) -> (r: bool)
        ensures
            r == self@.disputed,
    {
        self.disputed
    }

    pub fn is_resolved(&self) -> (r: bool)
        ensures
            r == self@.resolved,
    {
        self.resolved
    }

    pub fn is_chargebacked(&self) -> (r: bool)
        ensures
            r == self@.chargebacked,
    {
        self.chargebacked
    }

    /// Applies `ev` to this transaction and its client's account, as `apply_step` describes.
    /// A deposit or a withdrawal may only come to a transaction whose amount is not yet known.
    pub fn apply(&mut self, ev: Event, account: &mut Account) -> (r: Result<(), AmountOpError>)
        requires
            ev.amount_of() is Some ==> old(self)@.amount is None,
        ensures
            (final(self)@, final(account)@, r) == apply_step(old(self)@, ev, old(account)@),
    {
        match ev {
            Event::Deposit { amount, .. } => {
                account.deposit(amount)?;
                self.catch_up(amount, account)?;
                self.amount = Some(amount);
            },
            Event::Withdrawal { amount, .. } => {
                let negated = amount.neg()?;
                if !self.chargebacked {
                    account.withdraw(amount)?;
                }
                self.catch_up(negated, account)?;
                self.amount = Some(negated);
            },
            Event::Dispute { .. } => {
                self.disputed = true;
                if let Some(amount) = self.amount {
                    if self.chargebacked {
                        account.chargeback(amount, false)?;
                    } else if self.resolved {
                        account.release(amount)?;
                    } else {
                        account.hold(amount)?;
                    }
                }
            },
            Event::Resolve { .. } => {
                self.resolved = true;
                if let Some(amount) = self.amount {
                    if self.disputed && !self.chargebacked {
                        account.release(amount)?;
                    }
                }
            },
            Event::Chargeback { .. } => {
                self.chargebacked = true;
                if let Some(amount) = self.amount {
                    if self.disputed && !self.resolved {
                        account.chargeback(amount, true)?;
                    }
                }
            },
        }
        Ok(())
    }

    /// Applies the effect of a dispute that arrived before the amount `x` it concerns.
    fn catch_up(&self, x: Amount, account: &mut Account) -> (r: Result<(), AmountOpError>)
        ensures
            (final(account)@, r) == catch_up_step(self@, old(account)@, x),
    {
        if self.disputed && !self.resolved {
            if self.chargebacked {
                account.chargeback(x, false)
            } else {
                account.hold(x)
            }
        } else {
            Ok(())
        }
    }
}

impl Default for Transaction {
    fn default() -> (r: Transaction)
        ensures
            r@ == fresh_transaction(),
    {
        Transaction::new()
    }
}

} // verus!
