//! What holds of every run of records.

use crate::amount::within_bound;
use crate::db::Ledger;
use crate::engine::laws::lemma_apply_keeps_bounds;
use crate::parser::{
    cites, kind_of, linked, movement_of, processed, processed_all, reported, run, scanned,
    scanned_all, Record, RowKind, RowOutcome,
};
use vstd::prelude::*;

verus! {

/// One more record at the end of a run is taken after the others, in both
/// passes.
pub proof fn lemma_one_more_record(ledger: Ledger, rows: Seq<Record>, row: Record)
    ensures
        scanned_all(ledger, rows.push(row)) == scanned(scanned_all(ledger, rows), row),
        processed_all(ledger, rows.push(row)) == processed(processed_all(ledger, rows), row),
{
    assert(rows.push(row).drop_last() =~= rows);
}

/// The first pass touches no account and keeps no movement.
pub proof fn lemma_first_pass_only_marks(ledger: Ledger, rows: Seq<Record>)
    ensures
        scanned_all(ledger, rows).accounts == ledger.accounts,
        scanned_all(ledger, rows).stored == ledger.stored,
    decreases rows.len(),
{
    if rows.len() > 0 {
        lemma_first_pass_only_marks(ledger, rows.drop_last());
    }
}

/// The first pass marks an id exactly where it was marked before or a
/// dispute, a resolve or a chargeback among the records cites it.
pub proof fn lemma_first_pass_marks_cited(ledger: Ledger, rows: Seq<Record>, id: u32)
    ensures
        scanned_all(ledger, rows).referenced.contains(id) <==> ledger.referenced.contains(id) || (
        exists|i: int| 0 <= i < rows.len() && cites(#[trigger] rows[i]) && rows[i].tx == id),
    decreases rows.len(),
{
    if rows.len() > 0 {
        let front = rows.drop_last();
        lemma_first_pass_marks_cited(ledger, front, id);
        if scanned_all(ledger, rows).referenced.contains(id) && !ledger.referenced.contains(id) {
            if scanned_all(ledger, front).referenced.contains(id) {
                let i = choose|i: int|
                    0 <= i < front.len() && cites(#[trigger] front[i]) && front[i].tx == id;
                assert(rows[i] == front[i]);
            } else {
                assert(cites(rows[rows.len() - 1]) && rows[rows.len() - 1].tx == id);
            }
        }
        if exists|i: int| 0 <= i < rows.len() && cites(#[trigger] rows[i]) && rows[i].tx == id {
            let i = choose|i: int|
                0 <= i < rows.len() && cites(#[trigger] rows[i]) && rows[i].tx == id;
            if i < front.len() {
                assert(front[i] == rows[i]);
            }
        }
    }
}

/// The second pass marks no id.
pub proof fn lemma_second_pass_marks_nothing(ledger: Ledger, rows: Seq<Record>)
    ensures
        processed_all(ledger, rows).referenced == ledger.referenced,
    decreases rows.len(),
{
    if rows.len() > 0 {
        lemma_second_pass_marks_nothing(ledger, rows.drop_last());
    }
}

/// Whether a movement is kept only under ids that are marked as cited.
pub open spec fn keeps_only_marked(ledger: Ledger) -> bool {
    forall|id: u32| #[trigger] ledger.stored.contains_key(id) ==> ledger.referenced.contains(id)
}

/// A record of the second pass keeps a movement only under an id that is
/// marked as cited.
pub proof fn lemma_record_keeps_only_marked(ledger: Ledger, row: Record)
    requires
        keeps_only_marked(ledger),
    ensures
        keeps_only_marked(processed(ledger, row)),
{
}

/// What is kept after both passes over any records is kept under ids that
/// a dispute, a resolve or a chargeback among them cites: the memory for
/// kept movements grows with the cited ids, not with the records.
pub proof fn lemma_run_keeps_only_marked(rows: Seq<Record>)
    ensures
        keeps_only_marked(run(rows)),
        forall|id: u32| #[trigger]
            run(rows).stored.contains_key(id) ==> exists|i: int|
                0 <= i < rows.len() && cites(#[trigger] rows[i]) && rows[i].tx == id,
{
    let marked = scanned_all(Ledger::empty(), rows);
    lemma_first_pass_only_marks(Ledger::empty(), rows);
    lemma_second_pass_keeps_only_marked(marked, rows);
    assert forall|id: u32| #[trigger] run(rows).stored.contains_key(id) implies exists|i: int|
        0 <= i < rows.len() && cites(#[trigger] rows[i]) && rows[i].tx == id by {
        lemma_second_pass_marks_nothing(marked, rows);
        lemma_first_pass_marks_cited(Ledger::empty(), rows, id);
    }
}

/// The second pass over any records keeps movements only under marked ids.
pub proof fn lemma_second_pass_keeps_only_marked(ledger: Ledger, rows: Seq<Record>)
    requires
        keeps_only_marked(ledger),
    ensures
        keeps_only_marked(processed_all(ledger, rows)),
    decreases rows.len(),
{
    if rows.len() > 0 {
        lemma_second_pass_keeps_only_marked(ledger, rows.drop_last());
        lemma_record_keeps_only_marked(processed_all(ledger, rows.drop_last()), rows.last());
    }
}

/// A dispute, a resolve or a chargeback that cites an id under which
/// nothing is kept, or a movement kept for another account, changes no
/// account and nothing else.
pub proof fn lemma_stray_reference_changes_nothing(ledger: Ledger, row: Record)
    requires
        cites(row),
        !ledger.stored.contains_key(row.tx) || ledger.stored[row.tx].client_id != row.client,
    ensures
        processed(ledger, row) == ledger,
        reported(ledger, row) == if !ledger.stored.contains_key(row.tx) {
            RowOutcome::UnknownReference
        } else {
            RowOutcome::ForeignReference
        },
{
}

/// Only what is marked as cited is kept: a movement is kept under an id
/// after the second pass only where one was kept there before, or where the
/// id is marked and a record other than a dispute, a resolve or a chargeback
/// bears it.
pub proof fn lemma_kept_ids_were_seen(ledger: Ledger, rows: Seq<Record>, id: u32)
    requires
        !ledger.stored.contains_key(id),
        !ledger.referenced.contains(id) || forall|i: int|
            0 <= i < rows.len() ==> cites(#[trigger] rows[i]) || rows[i].tx != id,
    ensures
        !processed_all(ledger, rows).stored.contains_key(id),
    decreases rows.len(),
{
    if rows.len() > 0 {
        let front = rows.drop_last();
        assert forall|i: int| 0 <= i < front.len() implies front[i] == rows[i] by {}
        if ledger.referenced.contains(id) {
            assert forall|i: int| 0 <= i < front.len() implies cites(#[trigger] front[i])
                || front[i].tx != id by {
                assert(front[i] == rows[i]);
            }
        }
        lemma_kept_ids_were_seen(ledger, front, id);
        lemma_second_pass_marks_nothing(ledger, front);
        assert(rows.last() == rows[rows.len() - 1]);
    }
}

/// A record changes no account that is locked.
pub proof fn lemma_locked_account_is_final(ledger: Ledger, row: Record, id: u16)
    requires
        ledger.accounts.contains_key(id),
        ledger.accounts[id].locked,
    ensures
        processed(ledger, row).accounts.contains_key(id),
        processed(ledger, row).accounts[id] == ledger.accounts[id],
{
}

/// No run of records changes an account that is locked.
pub proof fn lemma_locked_account_stays_final(ledger: Ledger, rows: Seq<Record>, id: u16)
    requires
        ledger.accounts.contains_key(id),
        ledger.accounts[id].locked,
    ensures
        processed_all(ledger, rows).accounts.contains_key(id),
        processed_all(ledger, rows).accounts[id] == ledger.accounts[id],
    decreases rows.len(),
{
    if rows.len() > 0 {
        lemma_locked_account_stays_final(ledger, rows.drop_last(), id);
        lemma_locked_account_is_final(processed_all(ledger, rows.drop_last()), rows.last(), id);
    }
}

/// A record that is a movement asks for one whose amount is within the
/// bound, where the amount that it links to is.
pub proof fn lemma_movement_is_within_bounds(row: Record)
    requires
        row.linked matches Some(v) ==> within_bound(v),
    ensures
        movement_of(row) matches Ok(m) ==> m.wf(),
{
}

/// A record leaves every account and every kept movement within bounds:
/// whatever is dropped or refused, no number passes the bound or changes
/// the side of zero that it belongs on.
pub proof fn lemma_record_keeps_bounds(ledger: Ledger, row: Record)
    requires
        ledger.wf(),
    ensures
        scanned(ledger, row).wf(),
        processed(ledger, row).wf(),
{
    if cites(row) {
        if ledger.stored.contains_key(row.tx) {
            let cited = ledger.stored[row.tx].movement;
            assert(cited.wf());
            lemma_movement_is_within_bounds(linked(row, cited));
            match movement_of(linked(row, cited)) {
                Ok(m) => lemma_apply_keeps_bounds(ledger.account(row.client), m),
                Err(_) => {},
            }
        }
    } else {
        lemma_movement_is_within_bounds(Record { linked: None, ..row });
        match movement_of(row) {
            Ok(m) => lemma_apply_keeps_bounds(ledger.account(row.client), m),
            Err(_) => {},
        }
    }
}

/// The first pass over any records keeps the bounds.
pub proof fn lemma_first_pass_keeps_bounds(ledger: Ledger, rows: Seq<Record>)
    requires
        ledger.wf(),
    ensures
        scanned_all(ledger, rows).wf(),
    decreases rows.len(),
{
    if rows.len() > 0 {
        lemma_first_pass_keeps_bounds(ledger, rows.drop_last());
        lemma_record_keeps_bounds(scanned_all(ledger, rows.drop_last()), rows.last());
    }
}

/// The second pass over any records keeps the bounds.
pub proof fn lemma_second_pass_keeps_bounds(ledger: Ledger, rows: Seq<Record>)
    requires
        ledger.wf(),
    ensures
        processed_all(ledger, rows).wf(),
    decreases rows.len(),
{
    if rows.len() > 0 {
        lemma_second_pass_keeps_bounds(ledger, rows.drop_last());
        lemma_record_keeps_bounds(processed_all(ledger, rows.drop_last()), rows.last());
    }
}

/// Both passes over any records, from nothing, end with every account and
/// every kept movement within bounds.
pub proof fn lemma_run_keeps_bounds(rows: Seq<Record>)
    ensures
        run(rows).wf(),
{
    lemma_first_pass_keeps_bounds(Ledger::empty(), rows);
    lemma_second_pass_keeps_bounds(scanned_all(Ledger::empty(), rows), rows);
}

/// A deposit, then a dispute that cites it, then a resolve that cites it,
/// all of one account and with nothing else in the run: the accounts end as
/// they are after the deposit alone.
pub proof fn lemma_dispute_resolve_round_trip(deposit: Record, dispute: Record, resolve: Record)
    requires
        kind_of(deposit.kind) == Some(RowKind::Deposit),
        kind_of(dispute.kind) == Some(RowKind::Dispute),
        kind_of(resolve.kind) == Some(RowKind::Resolve),
        dispute.tx == deposit.tx,
        resolve.tx == deposit.tx,
        dispute.client == deposit.client,
        resolve.client == deposit.client,
    ensures
        run(seq![deposit, dispute, resolve]).accounts == run(seq![deposit]).accounts,
{
    let empty = Ledger::empty();
    let none = Seq::<Record>::empty();
    let one = seq![deposit];
    let three = seq![deposit, dispute, resolve];
    assert(one =~= none.push(deposit));
    assert(three =~= none.push(deposit).push(dispute).push(resolve));

    lemma_one_more_record(empty, none, deposit);
    let alone = processed_all(scanned_all(empty, one), one);
    lemma_one_more_record(scanned_all(empty, one), none, deposit);

    lemma_one_more_record(empty, none.push(deposit), dispute);
    lemma_one_more_record(empty, none.push(deposit).push(dispute), resolve);
    let marked = scanned_all(empty, three);
    assert(marked == empty.mark(deposit.tx).mark(deposit.tx));
    assert(marked.referenced.contains(deposit.tx));

    lemma_one_more_record(marked, none, deposit);
    lemma_one_more_record(marked, none.push(deposit), dispute);
    lemma_one_more_record(marked, none.push(deposit).push(dispute), resolve);
    let first = processed(marked, deposit);
    let second = processed(first, dispute);
    let third = processed(second, resolve);
    assert(processed_all(marked, three) == third);
    assert(third.accounts =~= alone.accounts);
}

} // verus!
