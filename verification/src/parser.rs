//! From records to movements: what a record asks for, how a dispute, a
//! resolve or a chargeback finds its amount, and the two passes over the
//! records.

use crate::amount::{text_value, AmountError, Usd};
use crate::db::{Db, Ledger};
use crate::engine::client::Outcome;
use crate::engine::transaction::Movement;
use crate::engine::{engine, Transaction};
use vstd::prelude::*;
use vstd::string::*;

verus! {

/// One record as it was read: the type by its name, the amount as text.
/// `linked_amount` is filled in for a record that cites another.
#[derive(Debug, PartialEq, Eq)]
pub struct InputRow {
    pub type_: String,
    pub client: u16,
    pub tx: u32,
    pub amount: Option<String>,
    pub linked_amount: Option<Usd>,
}

/// A record as plain values.
pub struct Record {
    pub kind: Seq<char>,
    pub client: u16,
    pub tx: u32,
    pub amount: Option<Seq<char>>,
    pub linked: Option<int>,
}

impl View for InputRow {
    type V = Record;

    open spec fn view(&self) -> Record {
        Record {
            kind: self.type_@,
            client: self.client,
            tx: self.tx,
            amount: match self.amount {
                Some(a) => Some(a@),
                None => None,
            },
            linked: match self.linked_amount {
                Some(u) => Some(u@),
                None => None,
            },
        }
    }
}

/// The types of record.
#[derive(Clone, Copy, Debug, PartialEq, Eq, Structural)]
pub enum RowKind {
    Deposit,
    Withdrawal,
    Dispute,
    Resolve,
    Chargeback,
}

impl RowKind {
    /// Whether a record of this type cites an earlier one and takes its
    /// amount from there.
    pub open spec fn cites(self) -> bool {
        self is Dispute || self is Resolve || self is Chargeback
    }
}

/// Why a record is no movement.
#[derive(Clone, Copy, Debug, PartialEq, Eq, Structural)]
pub enum RowError {
    /// The type is none of the five.
    UnknownType,
    /// The record has no amount, or nothing that it cites gave it one.
    MissingAmount,
    /// The amount is no decimal text, or passes the bound.
    InvalidAmount(AmountError),
    /// The amount is on the wrong side of zero for the type.
    WrongSign,
}

/// What became of a record in the second pass.
#[derive(Clone, Copy, Debug, PartialEq, Eq, Structural)]
pub enum RowOutcome {
    /// It cites an id under which nothing is kept.
    UnknownReference,
    /// It cites a movement of another account.
    ForeignReference,
    /// It is no movement.
    Malformed(RowError),
    /// It went to its account, with this result.
    Handled(Outcome),
}

/// The type that the name `s` stands for.
pub open spec fn kind_of(s: Seq<char>) -> Option<RowKind> {
    if s == "deposit"@ {
        Some(RowKind::Deposit)
    } else if s == "withdrawal"@ {
        Some(RowKind::Withdrawal)
    } else if s == "dispute"@ {
        Some(RowKind::Dispute)
    } else if s == "resolve"@ {
        Some(RowKind::Resolve)
    } else if s == "chargeback"@ {
        Some(RowKind::Chargeback)
    } else {
        None
    }
}

/// Whether the record cites an earlier one.
pub open spec fn cites(row: Record) -> bool {
    kind_of(row.kind) matches Some(kind) && kind.cites()
}

/// The movement that a record asks for. A deposit and a withdrawal take
/// their amount from the text, a withdrawal with a minus sign put before it;
/// the others take the linked amount. Each type wants its amount on its own
/// side of zero.
pub open spec fn movement_of(row: Record) -> Result<Movement, RowError> {
    match kind_of(row.kind) {
        None => Err(RowError::UnknownType),
        Some(RowKind::Deposit) => match row.amount {
            None => Err(RowError::MissingAmount),
            Some(text) => match text_value(text) {
                Err(e) => Err(RowError::InvalidAmount(e)),
                Ok(v) => if v >= 0 {
                    Ok(Movement::Deposit(v))
                } else {
                    Err(RowError::WrongSign)
                },
            },
        },
        Some(RowKind::Withdrawal) => match row.amount {
            None => Err(RowError::MissingAmount),
            Some(text) => match text_value(seq!['-'] + text) {
                Err(e) => Err(RowError::InvalidAmount(e)),
                Ok(v) => if v < 0 {
                    Ok(Movement::Withdrawal(v))
                } else {
                    Err(RowError::WrongSign)
                },
            },
        },
        Some(RowKind::Dispute) => match row.linked {
            None => Err(RowError::MissingAmount),
            Some(v) => if v < 0 {
                Ok(Movement::Dispute(v))
            } else {
                Err(RowError::WrongSign)
            },
        },
        Some(RowKind::Resolve) => match row.linked {
            None => Err(RowError::MissingAmount),
            Some(v) => if v >= 0 {
                Ok(Movement::Resolve(v))
            } else {
                Err(RowError::WrongSign)
            },
        },
        Some(RowKind::Chargeback) => match row.linked {
            None => Err(RowError::MissingAmount),
            Some(v) => if v < 0 {
                Ok(Movement::Chargeback(v))
            } else {
                Err(RowError::WrongSign)
            },
        },
    }
}

/// The result of reading a record, with the movement in numbers.
pub open spec fn moved(r: Result<Transaction, RowError>) -> Result<Movement, RowError> {
    match r {
        Ok(t) => Ok(t@),
        Err(e) => Err(e),
    }
}

/// The record with the amount of the movement it cites: as it stands for a
/// resolve, with its sign turned for a dispute and a chargeback.
pub open spec fn linked(row: Record, cited: Movement) -> Record {
    Record {
        linked: Some(
            if kind_of(row.kind) == Some(RowKind::Resolve) {
                cited.amount()
            } else {
                -cited.amount()
            },
        ),
        ..row
    }
}

/// The state after one record of the first pass: the id that a dispute, a
/// resolve or a chargeback cites is marked.
pub open spec fn scanned(ledger: Ledger, row: Record) -> Ledger {
    if cites(row) {
        ledger.mark(row.tx)
    } else {
        ledger
    }
}

/// The state after one record of the second pass.
///
/// A record that cites another is dropped where nothing is kept under the
/// id, where what is kept belongs to another account, or where the amount
/// found there is on the wrong side of zero; else its movement goes to the
/// account. Any other record is dropped where it is no movement; else the
/// movement is kept if its id is marked as cited, and goes to the account.
pub open spec fn processed(ledger: Ledger, row: Record) -> Ledger {
    if cites(row) {
        if !ledger.stored.contains_key(row.tx) || ledger.stored[row.tx].client_id != row.client {
            ledger
        } else {
            match movement_of(linked(row, ledger.stored[row.tx].movement)) {
                Err(_) => ledger,
                Ok(m) => ledger.dispatch(row.client, m),
            }
        }
    } else {
        match movement_of(row) {
            Err(_) => ledger,
            Ok(m) => if ledger.referenced.contains(row.tx) {
                ledger.store(row.tx, m, row.client).dispatch(row.client, m)
            } else {
                ledger.dispatch(row.client, m)
            },
        }
    }
}

/// What is reported of one record of the second pass.
pub open spec fn reported(ledger: Ledger, row: Record) -> RowOutcome {
    if cites(row) {
        if !ledger.stored.contains_key(row.tx) {
            RowOutcome::UnknownReference
        } else if ledger.stored[row.tx].client_id != row.client {
            RowOutcome::ForeignReference
        } else {
            match movement_of(linked(row, ledger.stored[row.tx].movement)) {
                Err(e) => RowOutcome::Malformed(e),
                Ok(m) => RowOutcome::Handled(ledger.account(row.client).outcome(m)),
            }
        }
    } else {
        match movement_of(row) {
            Err(e) => RowOutcome::Malformed(e),
            Ok(m) => RowOutcome::Handled(ledger.account(row.client).outcome(m)),
        }
    }
}

/// The state after the first pass over `rows`.
pub open spec fn scanned_all(ledger: Ledger, rows: Seq<Record>) -> Ledger
    decreases rows.len(),
{
    if rows.len() == 0 {
        ledger
    } else {
        scanned(scanned_all(ledger, rows.drop_last()), rows.last())
    }
}

/// The state after the second pass over `rows`.
pub open spec fn processed_all(ledger: Ledger, rows: Seq<Record>) -> Ledger
    decreases rows.len(),
{
    if rows.len() == 0 {
        ledger
    } else {
        processed(processed_all(ledger, rows.drop_last()), rows.last())
    }
}

/// What is reported of each record of the second pass over `rows`, in
/// their order.
pub open spec fn reported_all(ledger: Ledger, rows: Seq<Record>) -> Seq<RowOutcome>
    decreases rows.len(),
{
    if rows.len() == 0 {
        Seq::empty()
    } else {
        reported_all(ledger, rows.drop_last()).push(
            reported(processed_all(ledger, rows.drop_last()), rows.last()),
        )
    }
}

/// The records of a run of rows, as plain values.
pub open spec fn records(rows: Seq<InputRow>) -> Seq<Record> {
    rows.map_values(|row: InputRow| row@)
}

/// The state after both passes over `rows`, from nothing.
pub open spec fn run(rows: Seq<Record>) -> Ledger {
    processed_all(scanned_all(Ledger::empty(), rows), rows)
}

/// The first `n + 1` records are the first `n` and the one that follows.
proof fn lemma_records_step(rows: Seq<InputRow>, n: int)
    requires
        0 <= n < rows.len(),
    ensures
        records(rows.take(n + 1)) == records(rows.take(n)).push(rows[n]@),
        records(rows.take(n + 1)).drop_last() == records(rows.take(n)),
        records(rows.take(n + 1)).last() == rows[n]@,
{
}

/// Whether two texts are the same.
fn same_text(a: &str, b: &str) -> (r: bool)
    ensures
        r == (a@ == b@),
{
    let len: usize = a.unicode_len();
    if len != b.unicode_len() {
        return false;
    }
    let mut i: usize = 0;
    while i < len
        invariant
            i <= len,
            len == a@.len(),
            len == b@.len(),
            forall|j: int| 0 <= j < i ==> a@[j] == b@[j],
        decreases len - i,
    {
        if a.get_char(i) != b.get_char(i) {
            return false;
        }
        i = i + 1;
    }
    assert(a@ =~= b@);
    true
}

/// The type that a name stands for, if it is one of the five.
pub fn row_kind(name: &str) -> (r: Option<RowKind>)
    ensures
        r == kind_of(name@),
{
    if same_text(name, "deposit") {
        Some(RowKind::Deposit)
    } else if same_text(name, "withdrawal") {
        Some(RowKind::Withdrawal)
    } else if same_text(name, "dispute") {
        Some(RowKind::Dispute)
    } else if same_text(name, "resolve") {
        Some(RowKind::Resolve)
    } else if same_text(name, "chargeback") {
        Some(RowKind::Chargeback)
    } else {
        None
    }
}

/// Whether a record of this type cites an earlier one.
pub fn kind_cites(kind: Option<RowKind>) -> (r: bool)
    ensures
        r == (kind matches Some(k) && k.cites()),
{
    match kind {
        Some(RowKind::Dispute) => true,
        Some(RowKind::Resolve) => true,
        Some(RowKind::Chargeback) => true,
        _ => false,
    }
}

impl Transaction {
    /// The movement that a record asks for, or why it asks for none.
    pub fn try_from(row: InputRow) -> (r: Result<Transaction, RowError>)
        ensures
            moved(r) == movement_of(row@),
    {
        match row_kind(row.type_.as_str()) {
            None => Err(RowError::UnknownType),
            Some(RowKind::Withdrawal) => match row.amount {
                None => Err(RowError::MissingAmount),
                Some(amount) => {
                    let mut text = String::from_str("-");
                    text.append(amount.as_str());
                    proof {
                        reveal_strlit("-");
                        assert(text@ =~= seq!['-'] + amount@);
                    }
                    match Usd::try_from_str(text.as_str()) {
                        Err(e) => Err(RowError::InvalidAmount(e)),
                        Ok(usd) => match usd.debt() {
                            None => Err(RowError::WrongSign),
                            Some(usd) => Ok(Transaction::new_withdrawl(usd)),
                        },
                    }
                },
            },
            Some(RowKind::Deposit) => match row.amount {
                None => Err(RowError::MissingAmount),
                Some(amount) => match Usd::try_from_str(amount.as_str()) {
                    Err(e) => Err(RowError::InvalidAmount(e)),
                    Ok(usd) => match usd.credit() {
                        None => Err(RowError::WrongSign),
                        Some(usd) => Ok(Transaction::new_deposit(usd)),
                    },
                },
            },
            Some(RowKind::Dispute) => match row.linked_amount {
                None => Err(RowError::MissingAmount),
                Some(amount) => match amount.debt() {
                    None => Err(RowError::WrongSign),
                    Some(usd) => Ok(Transaction::new_dispute(usd)),
                },
            },
            Some(RowKind::Resolve) => match row.linked_amount {
                None => Err(RowError::MissingAmount),
                Some(amount) => match amount.credit() {
                    None => Err(RowError::WrongSign),
                    Some(usd) => Ok(Transaction::new_resolve(usd)),
                },
            },
            Some(RowKind::Chargeback) => match row.linked_amount {
                None => Err(RowError::MissingAmount),
                Some(amount) => match amount.debt() {
                    None => Err(RowError::WrongSign),
                    Some(usd) => Ok(Transaction::new_chargeback(usd)),
                },
            },
        }
    }
}

/// The first pass over one record: marks the id that it cites, if it cites
/// one.
pub fn pre_parse_row(row: &InputRow, db: &mut Db)
    ensures
        final(db)@ == scanned(old(db)@, row@),
{
    if kind_cites(row_kind(row.type_.as_str())) {
        db.add_id(row.tx);
    }
}

/// The second pass over one record: finds the amount of a record that cites
/// another, keeps a movement that is cited later, and hands the movement to
/// its account.
pub fn parse_row(row: InputRow, db: &mut Db) -> (outcome: RowOutcome)
    ensures
        final(db)@ == processed(old(db)@, row@),
        outcome == reported(old(db)@, row@),
{
    let kind = row_kind(row.type_.as_str());
    let client_id = row.client;
    let tx_id = row.tx;
    if kind_cites(kind) {
        let linked_amount = match db.get_tx(tx_id) {
            None => {
                return RowOutcome::UnknownReference;
            },
            Some(linked_tx) => {
                if linked_tx.client_id != client_id {
                    return RowOutcome::ForeignReference;
                }
                // The movement cited is taken to be a deposit: a resolve gives
                // its amount back as it stands, the others take it away.
                let amount = linked_tx.parsed_tx.get_amount();
                match kind {
                    Some(RowKind::Resolve) => amount,
                    _ => amount.negated(),
                }
            },
        };
        let mut row = row;
        row.linked_amount = Some(linked_amount);
        match Transaction::try_from(row) {
            Err(e) => RowOutcome::Malformed(e),
            Ok(parsed_tx) => RowOutcome::Handled(engine(db, parsed_tx, client_id)),
        }
    } else {
        match Transaction::try_from(row) {
            Err(e) => RowOutcome::Malformed(e),
            Ok(parsed_tx) => {
                if db.has_id(tx_id) {
                    db.add_tx(tx_id, parsed_tx, client_id);
                }
                RowOutcome::Handled(engine(db, parsed_tx, client_id))
            },
        }
    }
}

/// The first pass: marks every id that a dispute, a resolve or a chargeback
/// among `rows` cites. No account is touched.
pub fn pre_parse(rows: &Vec<InputRow>, db: &mut Db)
    ensures
        final(db)@ == scanned_all(old(db)@, records(rows@)),
{
    let ghost start = db@;
    let mut i: usize = 0;
    while i < rows.len()
        invariant
            i <= rows.len(),
            db@ == scanned_all(start, records(rows@.take(i as int))),
        decreases rows.len() - i,
    {
        proof {
            lemma_records_step(rows@, i as int);
        }
        pre_parse_row(&rows[i], db);
        i = i + 1;
    }
    assert(rows@.take(rows.len() as int) =~= rows@);
}

/// The second pass: every record of `rows` in its order, each as
/// [`parse_row`] takes it. Says what became of each.
pub fn parse(rows: Vec<InputRow>, db: &mut Db) -> (outcomes: Vec<RowOutcome>)
    ensures
        final(db)@ == processed_all(old(db)@, records(rows@)),
        outcomes@ == reported_all(old(db)@, records(rows@)),
{
    let ghost start = db@;
    let ghost input = rows@;
    let mut outcomes: Vec<RowOutcome> = Vec::new();
    for row in it: rows.into_iter()
        invariant
            it.seq() == input,
            db@ == processed_all(start, records(input.take(it.index() as int))),
            outcomes@ == reported_all(start, records(input.take(it.index() as int))),
    {
        proof {
            lemma_records_step(input, it.index() as int);
        }
        let outcome = parse_row(row, db);
        outcomes.push(outcome);
    }
    assert(input.take(input.len() as int) =~= input);
    outcomes
}

} // verus!
