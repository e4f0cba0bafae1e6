use vstd::prelude::*;
use crate::account::{available_of, AccountView};
use crate::amount::Amount;
use crate::event::ClientId;

verus! {

/// One line of the final snapshot: a client's balances.
#[derive(Debug, Clone, Copy, PartialEq, Eq, Structural)]
pub struct Output {
    pub client: ClientId,
    pub available: Amount,
    pub held: Amount,
    pub total: Amount,
    pub locked: bool,
}

/// The snapshot line of client `client` whose account is in state `a`.
pub open spec fn output_of(client: ClientId, a: AccountView) -> Output {
    Output {
        client,
        available: available_of(a),
        held: a.held,
        total: a.total,
        locked: a.locked,
    }
}

} // verus!
