use ledger_engine::amount::{AmountError, CreditUsd, DebtUsd, Usd};
use ledger_engine::db::Db;
use ledger_engine::engine::client::Outcome;
use ledger_engine::engine::{engine, Client, Transaction};
use ledger_engine::parser::{
    kind_cites, parse, parse_row, pre_parse, pre_parse_row, row_kind, InputRow, RowError, RowKind,
    RowOutcome,
};

fn row(type_: &str, client: u16, tx: u32, amount: Option<&str>) -> InputRow {
    InputRow {
        type_: type_.to_string(),
        client,
        tx,
        amount: amount.map(|a| a.to_string()),
        linked_amount: None,
    }
}

fn linked(type_: &str, amount: &str) -> InputRow {
    InputRow {
        type_: type_.to_string(),
        client: 1,
        tx: 1,
        amount: None,
        linked_amount: Some(Usd::try_from_str(amount).unwrap()),
    }
}

fn credit(text: &str) -> CreditUsd {
    Usd::try_from_str(text).unwrap().credit().unwrap()
}

fn debt(text: &str) -> DebtUsd {
    Usd::try_from_str(text).unwrap().debt().unwrap()
}

fn run(rows: Vec<InputRow>) -> (Db, Vec<RowOutcome>) {
    let mut db = Db::new();
    pre_parse(&rows, &mut db);
    let outcomes = parse(rows, &mut db);
    (db, outcomes)
}

fn client_of(db: &Db, id: u16) -> Client {
    *db.get_clients().get(&id).unwrap()
}

#[test]
fn row_kinds_by_name() {
    assert_eq!(row_kind("deposit"), Some(RowKind::Deposit));
    assert_eq!(row_kind("withdrawal"), Some(RowKind::Withdrawal));
    assert_eq!(row_kind("dispute"), Some(RowKind::Dispute));
    assert_eq!(row_kind("resolve"), Some(RowKind::Resolve));
    assert_eq!(row_kind("chargeback"), Some(RowKind::Chargeback));
    assert_eq!(row_kind("withdraw"), None);
    assert_eq!(row_kind("Deposit"), None);
    assert_eq!(row_kind("deposit "), None);
    assert_eq!(row_kind("deposi"), None);
    assert_eq!(row_kind(""), None);
}

#[test]
fn dispute_resolve_and_chargeback_cite() {
    assert!(!kind_cites(Some(RowKind::Deposit)));
    assert!(!kind_cites(Some(RowKind::Withdrawal)));
    assert!(kind_cites(Some(RowKind::Dispute)));
    assert!(kind_cites(Some(RowKind::Resolve)));
    assert!(kind_cites(Some(RowKind::Chargeback)));
    assert!(!kind_cites(None));
}

#[test]
fn deposit_row_becomes_a_deposit() {
    assert_eq!(
        Transaction::try_from(row("deposit", 1, 1, Some("10.0000"))),
        Ok(Transaction::Deposit(credit("10")))
    );
    assert_eq!(
        Transaction::try_from(row("deposit", 1, 1, Some("0"))),
        Ok(Transaction::Deposit(CreditUsd::zero()))
    );
}

#[test]
fn withdrawal_row_becomes_a_withdrawal() {
    assert_eq!(
        Transaction::try_from(row("withdrawal", 1, 1, Some("1.5"))),
        Ok(Transaction::Withdrawal(debt("-1.5")))
    );
}

#[test]
fn row_errors_each_with_its_input() {
    assert_eq!(Transaction::try_from(row("transfer", 1, 1, Some("1"))), Err(RowError::UnknownType));
    assert_eq!(Transaction::try_from(row("withdraw", 1, 1, Some("1"))), Err(RowError::UnknownType));
    assert_eq!(Transaction::try_from(row("deposit", 1, 1, None)), Err(RowError::MissingAmount));
    assert_eq!(Transaction::try_from(row("withdrawal", 1, 1, None)), Err(RowError::MissingAmount));
    assert_eq!(Transaction::try_from(row("dispute", 1, 1, Some("1"))), Err(RowError::MissingAmount));
    assert_eq!(Transaction::try_from(row("resolve", 1, 1, Some("1"))), Err(RowError::MissingAmount));
    assert_eq!(Transaction::try_from(row("chargeback", 1, 1, None)), Err(RowError::MissingAmount));
    assert_eq!(
        Transaction::try_from(row("deposit", 1, 1, Some("ten"))),
        Err(RowError::InvalidAmount(AmountError::Malformed))
    );
    assert_eq!(
        Transaction::try_from(row("deposit", 1, 1, Some("1.00001"))),
        Err(RowError::InvalidAmount(AmountError::Malformed))
    );
    assert_eq!(
        Transaction::try_from(row("deposit", 1, 1, Some("14000000000000.0001"))),
        Err(RowError::InvalidAmount(AmountError::OutOfRange))
    );
    assert_eq!(
        Transaction::try_from(row("withdrawal", 1, 1, Some("-1"))),
        Err(RowError::InvalidAmount(AmountError::Malformed))
    );
    assert_eq!(
        Transaction::try_from(row("withdrawal", 1, 1, Some("+1"))),
        Err(RowError::InvalidAmount(AmountError::Malformed))
    );
    assert_eq!(Transaction::try_from(row("deposit", 1, 1, Some("-1"))), Err(RowError::WrongSign));
    assert_eq!(Transaction::try_from(row("withdrawal", 1, 1, Some("0"))), Err(RowError::WrongSign));
}

#[test]
fn linked_amount_must_stand_on_its_side() {
    assert_eq!(Transaction::try_from(linked("dispute", "-3")), Ok(Transaction::Dispute(debt("-3"))));
    assert_eq!(Transaction::try_from(linked("resolve", "3")), Ok(Transaction::Resolve(credit("3"))));
    assert_eq!(
        Transaction::try_from(linked("chargeback", "-3")),
        Ok(Transaction::Chargeback(debt("-3")))
    );
    assert_eq!(Transaction::try_from(linked("dispute", "3")), Err(RowError::WrongSign));
    assert_eq!(Transaction::try_from(linked("dispute", "0")), Err(RowError::WrongSign));
    assert_eq!(Transaction::try_from(linked("resolve", "-3")), Err(RowError::WrongSign));
    assert_eq!(Transaction::try_from(linked("chargeback", "3")), Err(RowError::WrongSign));
}

#[test]
fn db_keeps_ids_movements_and_clients() {
    let mut db = Db::new();
    assert!(!db.has_id(7));
    db.add_id(7);
    assert!(db.has_id(7));
    assert!(!db.has_id(8));
    assert!(db.get_tx(7).is_none());
    db.add_tx(7, Transaction::Deposit(credit("2")), 3);
    let kept = db.get_tx(7).unwrap();
    assert_eq!(kept.parsed_tx, Transaction::Deposit(credit("2")));
    assert_eq!(kept.client_id, 3);
    assert!(db.get_client(3).is_none());
    db.add_client(3, Client::new_(false, credit("2"), None, None));
    db.get_client(3).unwrap().locked = true;
    assert!(client_of(&db, 3).locked);
    assert_eq!(db.get_clients().len(), 1);
}

#[test]
fn engine_makes_the_account_on_first_touch() {
    let mut db = Db::new();
    let outcome = engine(&mut db, Transaction::Withdrawal(debt("-1")), 9);
    assert_eq!(outcome, Outcome::Rejected);
    assert_eq!(client_of(&db, 9), Client::new());
    let outcome = engine(&mut db, Transaction::Deposit(credit("1")), 9);
    assert_eq!(outcome, Outcome::Applied);
    assert_eq!(client_of(&db, 9).total, credit("1"));
    assert_eq!(db.get_clients().len(), 1);
}

#[test]
fn first_pass_marks_only_cited_ids() {
    let mut db = Db::new();
    let rows = vec![
        row("deposit", 1, 1, Some("1")),
        row("dispute", 1, 2, None),
        row("resolve", 1, 3, None),
        row("chargeback", 1, 4, None),
        row("withdrawal", 1, 5, Some("1")),
        row("refund", 1, 6, None),
    ];
    pre_parse(&rows, &mut db);
    assert!(!db.has_id(1));
    assert!(db.has_id(2));
    assert!(db.has_id(3));
    assert!(db.has_id(4));
    assert!(!db.has_id(5));
    assert!(!db.has_id(6));
    assert!(db.get_clients().is_empty());
    let mut other = Db::new();
    pre_parse_row(&row("dispute", 1, 2, None), &mut other);
    pre_parse_row(&row("deposit", 1, 1, Some("1")), &mut other);
    assert!(other.has_id(2));
    assert!(!other.has_id(1));
}

#[test]
fn only_cited_movements_are_kept() {
    let (mut db, outcomes) = run(vec![
        row("deposit", 1, 1, Some("1")),
        row("deposit", 1, 2, Some("2")),
        row("dispute", 1, 2, None),
    ]);
    assert_eq!(outcomes, vec![RowOutcome::Handled(Outcome::Applied); 3]);
    assert!(db.get_tx(1).is_none());
    assert_eq!(db.get_tx(2).unwrap().parsed_tx, Transaction::Deposit(credit("2")));
    assert_eq!(client_of(&db, 1).total, credit("3"));
    assert_eq!(client_of(&db, 1).held, Some(debt("-2")));
}

#[test]
fn deposit_dispute_chargeback_in_a_run() {
    let (db, outcomes) = run(vec![
        row("deposit", 1, 1, Some("10.0000")),
        row("dispute", 1, 1, None),
    ]);
    assert_eq!(outcomes, vec![RowOutcome::Handled(Outcome::Applied); 2]);
    let client = client_of(&db, 1);
    assert_eq!(client.held, Some(debt("-10.0000")));
    assert_eq!(client.total, credit("10.0000"));
    assert_eq!(client.avaiable_amount(), Usd::zero());

    let (db, outcomes) = run(vec![
        row("deposit", 1, 1, Some("10.0000")),
        row("dispute", 1, 1, None),
        row("chargeback", 1, 1, None),
    ]);
    assert_eq!(outcomes, vec![RowOutcome::Handled(Outcome::Applied); 3]);
    let client = client_of(&db, 1);
    assert_eq!(client.total, CreditUsd::zero());
    assert_eq!(client.held, None);
    assert!(client.locked);
}

#[test]
fn deposit_dispute_chargeback_of_five() {
    let (db, _) = run(vec![
        row("deposit", 1, 1, Some("5")),
        row("dispute", 1, 1, None),
        row("chargeback", 1, 1, None),
    ]);
    let client = client_of(&db, 1);
    assert_eq!(client.total, CreditUsd::zero());
    assert_eq!(client.overflow, None);
    assert_eq!(client.held, None);
    assert!(client.locked);
}

#[test]
fn reference_to_an_unseen_id_changes_no_account() {
    let (before, _) = run(vec![row("deposit", 1, 1, Some("5")), row("deposit", 2, 2, Some("7"))]);
    for kind in ["dispute", "resolve", "chargeback"] {
        let (after, outcomes) = run(vec![
            row("deposit", 1, 1, Some("5")),
            row("deposit", 2, 2, Some("7")),
            row(kind, 1, 3, None),
        ]);
        assert_eq!(outcomes[2], RowOutcome::UnknownReference);
        assert_eq!(after.get_clients(), before.get_clients());
    }
}

#[test]
fn reference_to_another_accounts_movement_changes_no_account() {
    let (before, _) = run(vec![row("deposit", 1, 1, Some("5")), row("deposit", 2, 2, Some("7"))]);
    for kind in ["dispute", "resolve", "chargeback"] {
        let (after, outcomes) = run(vec![
            row("deposit", 1, 1, Some("5")),
            row("deposit", 2, 2, Some("7")),
            row(kind, 2, 1, None),
        ]);
        assert_eq!(outcomes[2], RowOutcome::ForeignReference);
        assert_eq!(after.get_clients(), before.get_clients());
        // not even the account that the row names comes to be
        let (after, _) = run(vec![row("deposit", 1, 1, Some("5")), row(kind, 3, 1, None)]);
        assert_eq!(after.get_clients().len(), 1);
    }
}

#[test]
fn reference_before_its_deposit_is_unknown() {
    let (db, outcomes) = run(vec![row("dispute", 1, 1, None), row("deposit", 1, 1, Some("5"))]);
    assert_eq!(
        outcomes,
        vec![RowOutcome::UnknownReference, RowOutcome::Handled(Outcome::Applied)]
    );
    assert_eq!(client_of(&db, 1).held, None);
}

#[test]
fn dispute_then_resolve_round_trip() {
    for amount in ["0", "0.0001", "5", "10.0000", "14000000000000"] {
        let (alone, _) = run(vec![row("deposit", 4, 8, Some(amount))]);
        let (round, _) = run(vec![
            row("deposit", 4, 8, Some(amount)),
            row("dispute", 4, 8, None),
            row("resolve", 4, 8, None),
        ]);
        assert_eq!(round.get_clients(), alone.get_clients());
        assert_eq!(client_of(&round, 4).total, credit(amount));
    }
    let (round, outcomes) = run(vec![
        row("deposit", 4, 8, Some("oops")),
        row("dispute", 4, 8, None),
        row("resolve", 4, 8, None),
    ]);
    assert!(round.get_clients().is_empty());
    assert_eq!(outcomes[1], RowOutcome::UnknownReference);
}

#[test]
fn reference_to_a_withdrawal_is_dropped() {
    let (db, outcomes) = run(vec![
        row("deposit", 1, 1, Some("5")),
        row("withdrawal", 1, 2, Some("2")),
        row("dispute", 1, 2, None),
        row("resolve", 1, 2, None),
        row("chargeback", 1, 2, None),
    ]);
    assert_eq!(outcomes[2], RowOutcome::Malformed(RowError::WrongSign));
    assert_eq!(outcomes[3], RowOutcome::Malformed(RowError::WrongSign));
    assert_eq!(outcomes[4], RowOutcome::Malformed(RowError::WrongSign));
    let client = client_of(&db, 1);
    assert_eq!(client.total, credit("3"));
    assert_eq!(client.held, None);
    assert!(!client.locked);
}

#[test]
fn malformed_rows_are_dropped_and_the_run_goes_on() {
    let (db, outcomes) = run(vec![
        row("deposit", 1, 1, Some("x")),
        row("deposit", 1, 2, None),
        row("bonus", 1, 3, Some("1")),
        row("deposit", 1, 4, Some("1.5")),
        row("withdrawal", 1, 5, Some("2")),
    ]);
    assert_eq!(
        outcomes,
        vec![
            RowOutcome::Malformed(RowError::InvalidAmount(AmountError::Malformed)),
            RowOutcome::Malformed(RowError::MissingAmount),
            RowOutcome::Malformed(RowError::UnknownType),
            RowOutcome::Handled(Outcome::Applied),
            RowOutcome::Handled(Outcome::Rejected),
        ]
    );
    assert_eq!(client_of(&db, 1).total, credit("1.5"));
}

#[test]
fn rows_after_a_chargeback_are_ignored() {
    let (db, outcomes) = run(vec![
        row("deposit", 1, 1, Some("5")),
        row("deposit", 1, 2, Some("1")),
        row("dispute", 1, 1, None),
        row("chargeback", 1, 1, None),
        row("deposit", 1, 3, Some("9")),
        row("resolve", 1, 1, None),
        row("deposit", 2, 4, Some("9")),
    ]);
    assert_eq!(outcomes[4], RowOutcome::Handled(Outcome::Ignored));
    assert_eq!(outcomes[5], RowOutcome::Handled(Outcome::Ignored));
    assert_eq!(outcomes[6], RowOutcome::Handled(Outcome::Applied));
    let client = client_of(&db, 1);
    assert!(client.locked);
    assert_eq!(client.total, credit("1"));
    assert_eq!(client_of(&db, 2).total, credit("9"));
}

#[test]
fn chargeback_for_more_than_the_total_leaves_an_overflow() {
    let (db, outcomes) = run(vec![
        row("deposit", 1, 1, Some("5")),
        row("withdrawal", 1, 2, Some("3")),
        row("chargeback", 1, 1, None),
    ]);
    assert_eq!(outcomes[2], RowOutcome::Handled(Outcome::HoldCleared));
    let client = client_of(&db, 1);
    assert!(client.locked);
    assert_eq!(client.total, CreditUsd::zero());
    assert_eq!(client.overflow, Some(debt("-3")));
    assert_eq!(client.held, None);
}

#[test]
fn rows_one_by_one_do_what_the_run_does() {
    let rows = || {
        vec![
            row("deposit", 1, 1, Some("5")),
            row("dispute", 1, 1, None),
            row("resolve", 1, 1, None),
            row("withdrawal", 1, 2, Some("4")),
        ]
    };
    let (whole, outcomes) = run(rows());
    let mut db = Db::new();
    for r in rows().iter() {
        pre_parse_row(r, &mut db);
    }
    let mut stepped = Vec::new();
    for r in rows() {
        stepped.push(parse_row(r, &mut db));
    }
    assert_eq!(stepped, outcomes);
    assert_eq!(db.get_clients(), whole.get_clients());
    assert_eq!(client_of(&db, 1).total, credit("1"));
}
