use vstd::prelude::*;
use crate::amount::Amount;
use crate::text::same_text;

verus! {

/// Identifies a client, and so an account.
pub type ClientId = u16;

/// Identifies a transaction.
pub type TransactionId = u32;

/// One record of the input stream.
#[derive(Debug, Clone, Copy)]
pub enum Event {
    Deposit { client: ClientId, tx: TransactionId, amount: Amount },
    Withdrawal { client: ClientId, tx: TransactionId, amount: Amount },
    Dispute { client: ClientId, tx: TransactionId },
    Resolve { client: ClientId, tx: TransactionId },
    Chargeback { client: ClientId, tx: TransactionId },
}

impl Event {
    pub open spec fn client_of(self) -> ClientId {
        match self {
            Event::Deposit { client, .. } => client,
            Event::Withdrawal { client, .. } => client,
            Event::Dispute { client, .. } => client,
            Event::Resolve { client, .. } => client,
            Event::Chargeback { client, .. } => client,
        }
    }

    pub open spec fn tx_of(self) -> TransactionId {
        match self {
            Event::Deposit { tx, .. } => tx,
            Event::Withdrawal { tx, .. } => tx,
            Event::Dispute { tx, .. } => tx,
            Event::Resolve { tx, .. } => tx,
            Event::Chargeback { tx, .. } => tx,
        }
    }

    /// The amount that a deposit or a withdrawal carries.
    pub open spec fn amount_of(self) -> Option<Amount> {
        match self {
            Event::Deposit { amount, .. } => Some(amount),
            Event::Withdrawal { amount, .. } => Some(amount),
            _ => None,
        }
    }

    pub fn client(&self) -> (r: ClientId)
        ensures
            r == self.client_of(),
    {
        match self {
            Event::Deposit { client, .. } => *client,
            Event::Withdrawal { client, .. } => *client,
            Event::Dispute { client, .. } => *client,
            Event::Resolve { client, .. } => *client,
            Event::Chargeback { client, .. } => *client,
        }
    }

    pub fn transaction(&self) -> (r: TransactionId)
        ensures
            r == self.tx_of(),
    {
        match self {
            Event::Deposit { tx, .. } => *tx,
            Event::Withdrawal { tx, .. } => *tx,
            Event::Dispute { tx, .. } => *tx,
            Event::Resolve { tx, .. } => *tx,
            Event::Chargeback { tx, .. } => *tx,
        }
    }

    pub fn amount(&self) -> (r: Option<Amount>)
        ensures
            r == self.amount_of(),
    {
        match self {
            Event::Deposit { amount, .. } => Some(*amount),
            Event::Withdrawal { amount, .. } => Some(*amount),
            _ => None,
        }
    }

    /// Builds an event from the fields of a record: its type name, client, transaction and
    /// optional amount. A deposit or a withdrawal needs the amount; the other types ignore it.
    pub fn from_record(kind: &str, client: ClientId, tx: TransactionId, amount: Option<Amount>) -> (r:
        Result<Event, EventError>)
        ensures
            r == record_event(kind@, client, tx, amount),
    {
        proof {
            reveal_strlit("deposit");
            reveal_strlit("withdrawal");
            reveal_strlit("dispute");
            reveal_strlit("resolve");
            reveal_strlit("chargeback");
        }
        if same_text(kind, "deposit") {
            match amount {
                Some(amount) => Ok(Event::Deposit { client, tx, amount }),
                None => Err(EventError::MissingAmount),
            }
        } else if same_text(kind, "withdrawal") {
            match amount {
                Some(amount) => Ok(Event::Withdrawal { client, tx, amount }),
                None => Err(EventError::MissingAmount),
            }
        } else if same_text(kind, "dispute") {
            Ok(Event::Dispute { client, tx })
        } else if same_text(kind, "resolve") {
            Ok(Event::Resolve { client, tx })
        } else if same_text(kind, "chargeback") {
            Ok(Event::Chargeback { client, tx })
        } else {
            Err(EventError::InvalidType)
        }
    }
}

/// The event that a record's fields describe, as `Event::from_record` builds it.
pub open spec fn record_event(kind: Seq<char>, client: ClientId, tx: TransactionId, amount: Option<
    Amount,
>) -> Result<Event, EventError> {
    if kind == "deposit"@ {
        match amount {
            Some(amount) => Ok(Event::Deposit { client, tx, amount }),
            None => Err(EventError::MissingAmount),
        }
    } else if kind == "withdrawal"@ {
        match amount {
            Some(amount) => Ok(Event::Withdrawal { client, tx, amount }),
            None => Err(EventError::MissingAmount),
        }
    } else if kind == "dispute"@ {
        Ok(Event::Dispute { client, tx })
    } else if kind == "resolve"@ {
        Ok(Event::Resolve { client, tx })
    } else if kind == "chargeback"@ {
        Ok(Event::Chargeback { client, tx })
    } else {
        Err(EventError::InvalidType)
    }
}

/// Why a record does not describe an event.
#[derive(Debug, Clone, Copy, PartialEq, Eq, Structural)]
pub enum EventError {
    /// A deposit or a withdrawal without an amount.
    MissingAmount,
    /// A type name that no event has.
    InvalidType,
}

impl EventError {
    pub fn message(&self) -> (r: String)
        ensures
            r@ == match self {
                EventError::MissingAmount => "missing required field: amount"@,
                EventError::InvalidType => "invalid event type"@,
            },
    {
        match self {
            EventError::MissingAmount => "missing required field: amount".to_owned(),
            EventError::InvalidType => "invalid event type".to_owned(),
        }
    }
}

} // verus!
