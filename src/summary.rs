use vstd::prelude::*;
use crate::amount::Amount;
use crate::event::ClientId;

verus! {

/// A client's balances, as one record.
#[derive(Debug, Clone, Copy, PartialEq, Eq, Structural)]
pub struct Summary {
    pub client: ClientId,
    pub available: Amount,
    pub held: Amount,
    pub total: Amount,
    pub locked: bool,
}

} // verus!
