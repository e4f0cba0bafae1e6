use vstd::prelude::*;
use std::collections::HashMap;
use std::rc::Rc;
use vstd::std_specs::iter::IteratorSpec;
use crate::account::{zero_account, Account, AccountView};
use crate::amount::{display, AmountOpError};
use crate::text::{decimal, push_decimal};
use vstd::string::StringExecFns;
use crate::event::{ClientId, Event, TransactionId};
use crate::output::{output_of, Output};
use crate::transaction::{apply_step, fresh_transaction, Transaction, TransactionView};

verus! {

#[verifier::external_type_specification]
#[verifier::external_body]
pub struct ExCsvError(csv::Error);

/// Something that went wrong while the events were processed. None of these stops the
/// processing of the records after it.
#[derive(Debug, Clone)]
pub enum ShardError {
    /// A record that could not be read as an event.
    CsvParseError(Rc<csv::Error>),
    /// An event whose arithmetic left the range of amounts; `reason` says which operation.
    TransactionOprror { tx: TransactionId, reason: AmountOpError },
    /// A deposit or a withdrawal for a transaction whose amount was already set. The record
    /// is rejected and nothing else changes.
    DuplicateTransaction { tx: TransactionId },
}

/// The text of an arithmetic failure of transaction `tx`.
pub open spec fn overflow_text(tx: TransactionId, e: AmountOpError) -> Seq<char> {
    "Transaction "@ + decimal(tx as nat) + " failed due to arithmetic overflow: "@ + match e.rhs {
        Some(rhs) => display(e.lhs@) + " "@ + e.op@ + " "@ + display(rhs@),
        None => e.op@ + display(e.lhs@),
    }
}

impl ShardError {
    /// A line that describes the error to a person.
    pub fn to_string(&self) -> (r: String)
        ensures
            match self {
                ShardError::CsvParseError(_) => "CSV parse error: "@.is_prefix_of(r@),
                ShardError::TransactionOprror { tx, reason } => r@ == overflow_text(*tx, *reason),
                ShardError::DuplicateTransaction { tx } => r@ == "Transaction "@ + decimal(
                    *tx as nat,
                ) + " already has an amount; the record was rejected"@,
            },
    {
        let mut s = String::new();
        match self {
            ShardError::CsvParseError(e) => {
                s.append("CSV parse error: ");
                let detail = e.to_string();
                s.append(detail.as_str());
                assert(("CSV parse error: "@ + detail@).take(("CSV parse error: "@).len() as int)
                    =~= "CSV parse error: "@);
            },
            ShardError::TransactionOprror { tx, reason } => {
                s.append("Transaction ");
                push_decimal(&mut s, *tx as u64);
                s.append(" failed due to arithmetic overflow: ");
                match reason.rhs {
                    Some(rhs) => {
                        s.append(reason.lhs.to_string().as_str());
                        s.append(" ");
                        s.append(reason.op);
                        s.append(" ");
                        s.append(rhs.to_string().as_str());
                    },
                    None => {
                        s.append(reason.op);
                        s.append(reason.lhs.to_string().as_str());
                    },
                }
                assert(s@ =~= overflow_text(*tx, *reason));
            },
            ShardError::DuplicateTransaction { tx } => {
                s.append("Transaction ");
                push_decimal(&mut s, *tx as u64);
                s.append(" already has an amount; the record was rejected");
            },
        }
        s
    }
}

/// The state of a ledger: the accounts by client, the transactions by id, and the errors so
/// far in the order they occurred.
pub ghost struct ShardView {
    pub accounts: Map<ClientId, AccountView>,
    pub transactions: Map<TransactionId, TransactionView>,
    pub errors: Seq<ShardError>,
}

pub open spec fn empty_shard() -> ShardView {
    ShardView { accounts: Map::empty(), transactions: Map::empty(), errors: Seq::empty() }
}

/// The account of `client`, or a zero account where there is none yet.
pub open spec fn account_of(s: ShardView, client: ClientId) -> AccountView {
    if s.accounts.contains_key(client) {
        s.accounts[client]
    } else {
        zero_account()
    }
}

/// The transaction `tx`, or a fresh one where there is none yet.
pub open spec fn transaction_of(s: ShardView, tx: TransactionId) -> TransactionView {
    if s.transactions.contains_key(tx) {
        s.transactions[tx]
    } else {
        fresh_transaction()
    }
}

/// What processing `ev` does to a ledger in state `s`.
pub open spec fn push_event_step(s: ShardView, ev: Event) -> ShardView {
    let c = ev.client_of();
    let id = ev.tx_of();
    let t = transaction_of(s, id);
    if ev.amount_of() is Some && t.amount is Some {
        ShardView { errors: s.errors.push(ShardError::DuplicateTransaction { tx: id }), ..s }
    } else {
        let (t2, a2, r) = apply_step(t, ev, account_of(s, c));
        ShardView {
            accounts: s.accounts.insert(c, a2),
            transactions: s.transactions.insert(id, t2),
            errors: match r {
                Ok(_) => s.errors,
                Err(e) => s.errors.push(ShardError::TransactionOprror { tx: id, reason: e }),
            },
        }
    }
}

/// The ledger: it owns every account and every transaction, and is the only one to change
/// them.
#[derive(Debug, Clone)]
pub struct Shard {
    accounts: HashMap<ClientId, Account>,
    transactions: HashMap<TransactionId, Transaction>,
    errors: Vec<ShardError>,
}

impl View for Shard {
    type V = ShardView;

    closed spec fn view(&self) -> ShardView {
        ShardView {
            accounts: self.accounts@.map_values(|a: Account| a@),
            transactions: self.transactions@.map_values(|t: Transaction| t@),
            errors: self.errors@,
        }
    }
}

impl Shard {
    pub fn new() -> (r: Shard)
        ensures
            r@ == empty_shard(),
    {
        let r = Shard { accounts: HashMap::new(), transactions: HashMap::new(), errors: Vec::new() };
        assert(r@.accounts =~= Map::empty());
        assert(r@.transactions =~= Map::empty());
        assert(r@.errors =~= Seq::empty());
        r
    }

    /// A copy of the account of `client`, if there is one.
    pub fn get_account(&self, client: ClientId) -> (r: Option<Account>)
        ensures
            match r {
                Some(a) => self@.accounts.contains_key(client) && a@ == self@.accounts[client],
                None => !self@.accounts.contains_key(client),
            },
    {
        match self.accounts.get(&client) {
            Some(a) => Some(*a),
            None => None,
        }
    }

    /// A copy of the transaction `tx`, if there is one.
    pub fn get_transaction(&self, tx: TransactionId) -> (r: Option<Transaction>)
        ensures
            match r {
                Some(t) => self@.transactions.contains_key(tx) && t@ == self@.transactions[tx],
                None => !self@.transactions.contains_key(tx),
            },
    {
        match self.transactions.get(&tx) {
            Some(t) => Some(*t),
            None => None,
        }
    }

    /// The errors so far, in the order they occurred.
    pub fn errors(&self) -> (r: &[ShardError])
        ensures
            r@ == self@.errors,
    {
        self.errors.as_slice()
    }

    /// Processes one event: finds or creates its client's account and its transaction, and
    /// applies it. An arithmetic failure is recorded as an error, never returned. A deposit
    /// or a withdrawal for a transaction whose amount is already known is rejected and
    /// recorded as an error.
    pub fn push_event(&mut self, event: Event)
        ensures
            final(self)@ == push_event_step(old(self)@, event),
    {
        let client_id = event.client();
        let tx_id = event.transaction();
        let mut account = match self.accounts.get(&client_id) {
            Some(a) => *a,
            None => Account::new(),
        };
        let mut transaction = match self.transactions.get(&tx_id) {
            Some(t) => *t,
            None => Transaction::new(),
        };
        if event.amount().is_some() && transaction.has_amount() {
            self.push_error(ShardError::DuplicateTransaction { tx: tx_id });
            return;
        }
        let result = transaction.apply(event, &mut account);
        self.accounts.insert(client_id, account);
        self.transactions.insert(tx_id, transaction);
        proof {
            assert(self@.accounts =~= old(self)@.accounts.insert(client_id, account@));
            assert(self@.transactions =~= old(self)@.transactions.insert(tx_id, transaction@));
        }
        if let Err(err) = result {
            self.push_error(ShardError::TransactionOprror { tx: tx_id, reason: err });
        }
    }

    /// One snapshot line per client, in no particular order.
    pub fn generate_output(&self) -> (r: Vec<Output>)
        ensures
            r@.len() == self@.accounts.dom().len(),
            forall|i: int|
                0 <= i < r@.len() ==> self@.accounts.contains_key(#[trigger] r@[i].client)
                    && r@[i] == output_of(r@[i].client, self@.accounts[r@[i].client]),
            forall|c: ClientId|
                #[trigger] self@.accounts.contains_key(c) ==> exists|i: int|
                    0 <= i < r@.len() && #[trigger] r@[i].client == c,
    {
        let mut r: Vec<Output> = Vec::new();
        for entry in it: self.accounts.iter()
            invariant
                it.seq() == self.accounts.iter().remaining(),
                r@.len() == it.index(),
                forall|i: int|
                    0 <= i < it.index() ==> #[trigger] r@[i] == output_of(
                        *it.seq()[i].0,
                        (*it.seq()[i].1)@,
                    ),
        {
            let (client, account) = entry;
            r.push(
                Output {
                    client: *client,
                    available: account.available(),
                    held: account.held(),
                    total: account.total(),
                    locked: account.is_locked(),
                },
            );
        }
        proof {
            let v = self.accounts.iter().remaining();
            assert(self@.accounts.dom() =~= self.accounts@.dom());
            assert forall|i: int|
                0 <= i < r@.len() implies self@.accounts.contains_key(#[trigger] r@[i].client)
                && r@[i] == output_of(r@[i].client, self@.accounts[r@[i].client]) by {
                assert(self.accounts@.contains_key(*v[i].0));
            }
            assert forall|c: ClientId| #[trigger]
                self@.accounts.contains_key(c) implies exists|i: int|
                0 <= i < r@.len() && #[trigger] r@[i].client == c by {
                assert(self.accounts@.contains_key(c));
                assert(v.contains((&c, &self.accounts@[c])));
                let i = choose|i: int| 0 <= i < v.len() && v[i] == (&c, &self.accounts@[c]);
                assert(r@[i].client == c);
            }
        }
        r
    }

    /// One snapshot line per client, in ascending order of client id.
    pub fn generate_output_sorted(&self) -> (r: Vec<Output>)
        ensures
            forall|i: int|
                0 <= i < r@.len() ==> self@.accounts.contains_key(#[trigger] r@[i].client)
                    && r@[i] == output_of(r@[i].client, self@.accounts[r@[i].client]),
            forall|c: ClientId|
                #[trigger] self@.accounts.contains_key(c) ==> exists|i: int|
                    0 <= i < r@.len() && #[trigger] r@[i].client == c,
            forall|i: int, j: int| 0 <= i < j < r@.len() ==> r@[i].client < r@[j].client,
    {
        let mut r: Vec<Output> = Vec::new();
        let mut next: u32 = 0;
        while next <= ClientId::MAX as u32
            invariant
                next <= ClientId::MAX as u32 + 1,
                forall|i: int|
                    0 <= i < r@.len() ==> self@.accounts.contains_key(#[trigger] r@[i].client)
                        && r@[i] == output_of(r@[i].client, self@.accounts[r@[i].client])
                        && r@[i].client < next,
                forall|c: ClientId|
                    #[trigger] self@.accounts.contains_key(c) && c < next ==> exists|i: int|
                        0 <= i < r@.len() && #[trigger] r@[i].client == c,
                forall|i: int, j: int| 0 <= i < j < r@.len() ==> r@[i].client < r@[j].client,
            decreases ClientId::MAX as u32 + 1 - next,
        {
            let client = next as ClientId;
            if let Some(account) = self.accounts.get(&client) {
                let ghost before = r@;
                r.push(
                    Output {
                        client,
                        available: account.available(),
                        held: account.held(),
                        total: account.total(),
                        locked: account.is_locked(),
                    },
                );
                proof {
                    assert(self@.accounts.contains_key(client));
                    assert(self@.accounts[client] == (*account)@);
                    assert(r@[r@.len() - 1] == output_of(client, self@.accounts[client]));
                    assert forall|i: int|
                        0 <= i < r@.len() implies self@.accounts.contains_key(#[trigger] r@[i].client)
                        && r@[i] == output_of(r@[i].client, self@.accounts[r@[i].client])
                        && r@[i].client < next + 1 by {
                        if i < before.len() {
                            assert(r@[i] == before[i]);
                        }
                    }
                    assert forall|i: int, j: int|
                        0 <= i < j < r@.len() implies r@[i].client < r@[j].client by {
                        if j < before.len() {
                            assert(r@[i] == before[i] && r@[j] == before[j]);
                        } else {
                            assert(r@[i] == before[i]);
                        }
                    }
                    assert forall|c: ClientId|
                        #[trigger] self@.accounts.contains_key(c) && c < next + 1 implies exists|
                        i: int,
                    | 0 <= i < r@.len() && #[trigger] r@[i].client == c by {
                        if c == client {
                            assert(r@[r@.len() - 1].client == c);
                        } else {
                            let i = choose|i: int| 0 <= i < before.len() && #[trigger] before[i].client == c;
                            assert(r@[i].client == c);
                        }
                    }
                }
            }
            next += 1;
        }
        r
    }

    /// Records an error that was found outside the ledger, such as an unreadable record.
    pub fn push_error(&mut self, err: ShardError)
        ensures
            final(self)@ == (ShardView { errors: old(self)@.errors.push(err), ..old(self)@ }),
    {
        self.errors.push(err);
        proof {
            assert(self@.accounts =~= old(self)@.accounts);
            assert(self@.transactions =~= old(self)@.transactions);
        }
    }
}

} // verus!
