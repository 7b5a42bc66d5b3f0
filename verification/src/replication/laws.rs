//! What carrying a table over owes to its rows, told by what can be seen of both.

#[allow(unused_imports)]
use crate::pool::cluster::{DatabaseUser, ShardedTables};
#[allow(unused_imports)]
use crate::replication::columns::{
    all_placed, marks_of, of_identity, phrase, plain_count, present_in, renumbered, shifted,
    ColumnValue, NonIdentityColumnsPresence, Phrase,
};
#[allow(unused_imports)]
use crate::replication::error::{Error, TableValidationErrorKind};
#[allow(unused_imports)]
use crate::replication::queries::{
    column_of, names, not_named, number_or_zero, oid_or_zero, says_yes, table_of, text_at, DataRow,
    PublicationTable, PublicationTableColumn,
};
#[allow(unused_imports)]
use crate::replication::status::{
    begun, behind_by, carried_to, failed_with, progressed, started_over, task_for, without_slot, SchemaStatementTask, SlotState, Statement,
    StatementKind, SyncState, TableCopyState,
};
#[allow(unused_imports)]
use crate::replication::sync::{step_after, went_on, SyncEvent, SyncStep};
#[allow(unused_imports)]
use crate::replication::table::{
    looked_up_again, decided_at, decides_shard, flaw, column_decides, rows_found, Lsn, Table,
};
#[allow(unused_imports)]
use crate::time::Instant;
use vstd::prelude::*;

verus! {

/// Changes of a partition go to its parent, those of any other table to the table itself.
pub proof fn partitions_give_to_their_parents(t: PublicationTable)
    ensures
        t.parent_name@ == Seq::<char>::empty() ==> t.target_name() == t.name@,
        t.parent_name@.len() > 0 ==> t.target_name() == t.parent_name@,
        t.parent_schema@ == Seq::<char>::empty() ==> t.target_schema() == t.schema@,
        t.parent_schema@.len() > 0 ==> t.target_schema() == t.parent_schema@,
{
}

proof fn lemma_plain_count(columns: Seq<PublicationTableColumn>, values: Seq<ColumnValue>, i: int)
    requires
        0 <= i < columns.len(),
        !columns[i].identity,
    ensures
        plain_count(columns.take(i)) < marks_of(columns, values).len(),
        marks_of(columns, values)[plain_count(columns.take(i)) as int] == !(values[i] is Toasted),
        marks_of(columns, values).len() == plain_count(columns),
    decreases columns.len(),
{
    let short = columns.drop_last();
    lemma_marks_len(columns, values);
    lemma_marks_len(short, values);
    if i < short.len() {
        assert(short[i] == columns[i]);
        assert(short.take(i) == columns.take(i));
        lemma_plain_count(short, values, i);
    } else {
        assert(columns.take(i) == short);
    }
}

proof fn lemma_marks_len(columns: Seq<PublicationTableColumn>, values: Seq<ColumnValue>)
    ensures
        marks_of(columns, values).len() == plain_count(columns),
    decreases columns.len(),
{
    if columns.len() > 0 {
        lemma_marks_len(columns.drop_last(), values);
    }
}

/// A change sets exactly the columns that it brings a value for: those that tell rows apart, and
/// those whose value is not stored elsewhere unchanged. Columns are gone through in order; each of
/// them is taken or left out by this alone.
pub proof fn changes_set_what_they_bring(
    columns: Seq<PublicationTableColumn>,
    values: Seq<ColumnValue>,
    i: int,
)
    requires
        0 <= i < columns.len(),
    ensures
        ({
            let marks = marks_of(columns, values);
            let before = present_in(columns.take(i), marks);
            present_in(columns.take(i + 1), marks) == if columns[i].identity || !(
            values[i] is Toasted) {
                before.push(columns[i])
            } else {
                before
            }
        }),
        present_in(columns.take(0), marks_of(columns, values)).len() == 0,
{
    assert(columns.take(i + 1).drop_last() == columns.take(i));
    assert(columns.take(i + 1).last() == columns[i]);
    if !columns[i].identity {
        lemma_plain_count(columns, values, i);
    }
}

/// Nothing is set by a change that brings no value for a column beyond those that tell rows apart.
/// `i` is any column.
pub proof fn changes_without_values_set_nothing(
    columns: Seq<PublicationTableColumn>,
    values: Seq<ColumnValue>,
    p: NonIdentityColumnsPresence,
    i: int,
)
    requires
        p.marks@ == marks_of(columns, values),
        0 <= i < columns.len(),
        !columns[i].identity,
        !(values[i] is Toasted),
    ensures
        p.some(),
{
    lemma_plain_count(columns, values, i);
    assert(p.marks@[plain_count(columns.take(i)) as int]);
}

/// Changes of a table can be carried over if all values of a row tell it apart, or if some column
/// does and the table has not given up telling rows apart. `i` is any column.
pub proof fn rows_have_to_be_told_apart(t: Table, i: int)
    requires
        0 <= i < t.columns@.len(),
    ensures
        t.identity.identity@ == "f"@ ==> flaw(t) is None,
        t.identity.identity@ == "n"@ ==> flaw(t) == Some(
            TableValidationErrorKind::ReplicaIdentityNothing,
        ),
        t.identity.identity@ != "n"@ && t.columns@[i].identity ==> flaw(t) is None,
        flaw(t) is None && t.identity.identity@ != "f"@ ==> exists|k: int|
            0 <= k < t.columns@.len() && (#[trigger] t.columns@[k]).identity,
        flaw(t) == Some(TableValidationErrorKind::NoIdentityColumns) ==> !t.columns@[i].identity,
{
    reveal_strlit("f");
    reveal_strlit("n");
    assert("f"@[0] == 'f' && "n"@[0] == 'n');
    let _ = t.columns@[i];
}

/// A table is sharded exactly if one of its columns is a sharding key: of this table, or of any one
/// where none is named, in this schema, or in any one where none is named. `i` is any column, `k` any
/// entry.
pub proof fn sharding_keys_shard_tables(t: Table, tables: ShardedTables, i: int, k: int)
    requires
        0 <= i < t.columns@.len(),
        0 <= k < tables.tables@.len(),
    ensures
        ({
            let e = tables.tables@[k];
            &&& e.column@ == t.columns@[i].name@ && (e.name is None || e.name->Some_0@
                == t.table.name@) && (e.schema is None || e.schema->Some_0@ == t.table.schema@)
                ==> decides_shard(t, tables)
        }),
        decides_shard(t, tables) ==> exists|a: int, b: int|
            {
                let (c, e) = (#[trigger] t.columns@[a], #[trigger] tables.tables@[b]);
                &&& 0 <= a < t.columns@.len() && 0 <= b < tables.tables@.len()
                &&& e.column@ == c.name@
                &&& e.name is Some ==> e.name->Some_0@ == t.table.name@
                &&& e.schema is Some ==> e.schema->Some_0@ == t.table.schema@
            },
{
    let e = tables.tables@[k];
    if e.column@ == t.columns@[i].name@ && (e.name is None || e.name->Some_0@ == t.table.name@) && (
    e.schema is None || e.schema->Some_0@ == t.table.schema@) {
        assert(column_decides(t, tables, i));
    }
    if decides_shard(t, tables) {
        let a = choose|a: int| #[trigger] column_decides(t, tables, a);
        let b = choose|b: int|
            0 <= b < tables.tables@.len() && crate::pool::cluster::entry_covers(
                #[trigger] tables.tables@[b],
                t.table.schema@,
                t.table.name@,
                t.columns@[a].name@,
            );
        let (c, d) = (t.columns@[a], tables.tables@[b]);
        assert(d.column@ == c.name@);
    }
}

/// The sum, or the largest number that can be counted to.
pub open spec fn at_most(n: int) -> int {
    if n <= usize::MAX {
        n
    } else {
        usize::MAX as int
    }
}

/// What was copied adds up, and the rate is all bytes over the whole seconds since the copy began,
/// once there was one. When the copy began and what it executes stay as they are.
pub proof fn copies_add_up(
    before: TableCopyState,
    after: TableCopyState,
    bytes: usize,
    rows: usize,
    now: Instant,
)
    requires
        progressed(before, after, bytes, rows, now),
    ensures
        after.bytes == at_most(before.bytes + bytes),
        after.rows == at_most(before.rows + rows),
        after.last_update == before.last_update && after.sql == before.sql,
        now.nanos >= before.last_update.nanos + 1_000_000_000 ==> after.bytes_per_sec == after.bytes
            as int / ((now.nanos - before.last_update.nanos) / 1_000_000_000),
        now.nanos < before.last_update.nanos + 1_000_000_000 ==> after.bytes_per_sec
            == before.bytes_per_sec,
{
}

/// A copy that begins anew has copied nothing, and its time starts over; what it executes stays.
pub proof fn copies_begin_anew(state: TableCopyState, now: Instant)
    ensures
        ({
            let s = started_over(state, now);
            s.bytes == 0 && s.rows == 0 && s.bytes_per_sec == 0 && s.last_update == now && s.sql
                == state.sql
        }),
{
}

/// A slot that was made for copying a table is gone with its connection; every other slot stays, and
/// nobody else's slot is touched.
pub proof fn slots_outlive_connections(
    slots: Map<Seq<char>, SlotState>,
    slot: SlotState,
    name: Seq<char>,
)
    ensures
        name != slot.name@ || !slot.copy_data ==> (without_slot(slots, slot).contains_key(name)
            <==> slots.contains_key(name)),
        name != slot.name@ && slots.contains_key(name) ==> without_slot(slots, slot)[name]
            == slots[name],
        slot.copy_data ==> !without_slot(slots, slot).contains_key(slot.name@),
{
}

/// A statement that will be executed is known by what it is, for whom, where and when; it has neither
/// been begun nor ended, and the table that it creates, or creates an index on, is known.
pub proof fn statements_are_known(
    task: SchemaStatementTask,
    user: DatabaseUser,
    stmt: Statement,
    shard: usize,
    sync_state: SyncState,
    id: i64,
)
    requires
        task_for(task, user, stmt, shard, sync_state, id),
    ensures
        task.statement.shard == shard && task.statement.sync_state == sync_state
            && task.statement.id == id && task.statement.user == user,
        !task.running && !task.done && task.error is None && task.statement.started_at is None,
        task.statement.kind == StatementKind::Index <==> stmt is Index,
        task.statement.kind == StatementKind::Table <==> stmt is Table,
        stmt matches Statement::Index { table, sql } ==> task.statement.sql@ == sql@
            && task.statement.table_name == Some(table.name) && task.statement.table_schema
            == table.schema,
        stmt matches Statement::Table { table, sql } ==> task.statement.sql@ == sql@
            && task.statement.table_name == Some(table.name) && task.statement.table_schema
            == table.schema,
        stmt matches Statement::Other { sql } ==> task.statement.sql@ == sql@
            && task.statement.table_name is None,
        stmt matches Statement::SequenceOwner { sql } ==> task.statement.sql@ == sql@
            && task.statement.table_name is None,
        stmt matches Statement::SequenceSetMax { sql } ==> task.statement.sql@ == sql@
            && task.statement.table_name is None,
{
}

/// The copy of a table is as of when its slot was created: only that sets the position, and the
/// source is told that everything up to there is done, and nothing beyond. A copy can be stopped while
/// a row is written, any failure ends it as it is, and what does not fit the step is refused.
pub proof fn copies_are_as_of_their_slot(
    before: Table,
    after: Table,
    step: SyncStep,
    event: SyncEvent,
    r: Result<SyncStep, Error>,
)
    requires
        went_on(before, after, step, event, r),
    ensures
        event matches SyncEvent::SlotCreated(lsn) ==> (step is CreateSlot ==> after.lsn == lsn),
        !(step is CreateSlot && event is SlotCreated) ==> after.lsn == before.lsn,
        after.columns == before.columns && after.table == before.table,
        r matches Ok(SyncStep::Acknowledge(lsn)) ==> lsn == after.lsn && step is StartReplication,
        r matches Ok(SyncStep::Finish(lsn)) ==> lsn == after.lsn && step is Drain && event is End,
        event matches SyncEvent::Failed(e) ==> r == Err::<SyncStep, Error>(e),
        event is Aborted && step is WriteRow ==> r == Err::<SyncStep, Error>(
            Error::CopyAborted(before.table),
        ),
        event is Aborted ==> r is Err,
{
}

/// Rows are read and written one after the other until there are none, then the copy is done at the
/// destination, before the transaction at the source ends, before the source is told.
pub proof fn rows_are_copied_until_there_are_none(step: SyncStep, event: SyncEvent, lsn: Lsn)
    ensures
        step_after(step, event, lsn) == Some(SyncStep::WriteRow) <==> step is ReadRow
            && event is More,
        step_after(step, event, lsn) == Some(SyncStep::CopyDone) <==> step is ReadRow
            && event is End,
        step is WriteRow && event is Done ==> step_after(step, event, lsn) == Some(
            SyncStep::ReadRow,
        ),
        step_after(step, event, lsn) == Some(SyncStep::Disconnect) ==> step is CopyDone,
        step_after(step, event, lsn) == Some(SyncStep::Commit) ==> step is Disconnect,
        step_after(step, event, lsn) == Some(SyncStep::StartReplication) ==> step is Commit,
        step_after(step, event, lsn) == Some(SyncStep::Reload) ==> step is CreateSlot
            && event is SlotCreated,
        step_after(step, event, lsn) == Some(SyncStep::CreateSlot) ==> step is ConnectSource,
        step_after(step, event, lsn) == Some(SyncStep::StartSource) ==> step is Reload,
        step_after(step, event, lsn) == Some(SyncStep::StartDestination) ==> step is StartSource,
{
}

/// There are rows as soon as one shard has a row, if no shard failed before it, and there are none only
/// if every shard answered without one. `i` is any shard.
pub proof fn rows_on_any_shard_count(
    answers: Seq<Result<Vec<char>, Error>>,
    r: Result<bool, Error>,
    i: int,
)
    requires
        rows_found(answers, r),
        0 <= i < answers.len(),
    ensures
        r == Ok::<bool, Error>(false) ==> answers[i] is Ok && !answers[i]->Ok_0@.contains('D'),
        r == Ok::<bool, Error>(true) ==> exists|k: int|
            0 <= k < answers.len() && (#[trigger] answers[k]) is Ok && answers[k]->Ok_0@.contains(
                'D',
            ),
        answers[i] is Ok && answers[i]->Ok_0@.contains('D') ==> r != Ok::<bool, Error>(false),
        answers[i] is Err ==> r != Ok::<bool, Error>(false),
        r is Err ==> exists|k: int|
            0 <= k < answers.len() && (#[trigger] answers[k]) is Err && answers[k]->Err_0
                == r->Err_0,
{
    let _ = decided_at(answers, i);
    match r {
        Ok(true) => {
            let k = choose|k: int|
                0 <= k < answers.len() && #[trigger] decided_at(answers, k) && answers[k] is Ok
                    && forall|j: int| 0 <= j < k ==> !#[trigger] decided_at(answers, j);
            assert(answers[k] is Ok);
        },
        Ok(false) => {
            assert(!decided_at(answers, i));
        },
        Err(e) => {
            let k = choose|k: int|
                0 <= k < answers.len() && #[trigger] decided_at(answers, k) && answers[k] == Err::<
                    Vec<char>,
                    Error,
                >(e) && forall|j: int| 0 <= j < k ==> !#[trigger] decided_at(answers, j);
            assert(answers[k] is Err);
        },
    }
}

/// What is said of a column in a statement names the column, and gives the value of its own parameter,
/// counted from one.
pub proof fn columns_get_their_own_parameters(what: Phrase, column: (int, PublicationTableColumn))
    requires
        column.0 >= 0,
    ensures
        ({
            let name = crate::replication::columns::identifier(column.1.name@);
            let number = crate::text::decimal((column.0 + 1) as nat);
            match what {
                Phrase::Name => phrase(what, column) == name,
                Phrase::Placeholder => phrase(what, column).subrange(
                    1,
                    phrase(what, column).len() as int,
                ) == number,
                _ => {
                    &&& phrase(what, column).take(name.len() as int) == name
                    &&& phrase(what, column).skip(
                        phrase(what, column).len() - number.len(),
                    ) == number
                },
            }
        }),
{
    reveal_strlit("$");
    let name = crate::replication::columns::identifier(column.1.name@);
    let number = crate::text::decimal((column.0 + 1) as nat);
    let all = phrase(what, column);
    match what {
        Phrase::Name => {},
        Phrase::Placeholder => {
            assert(all.subrange(1, all.len() as int) =~= number);
        },
        _ => {
            assert(all.take(name.len() as int) =~= name);
            assert(all.skip(all.len() - number.len()) =~= number);
        },
    }
}

/// What a row of the server says of a column: the third text is the number of its type, and it tells
/// rows apart if the fourth one says so.
pub proof fn rows_describe_columns(row: DataRow, c: PublicationTableColumn)
    requires
        column_of(row, c),
        row.columns@.len() == 4,
        row.columns@[1] is Some,
        row.columns@[3] is Some,
    ensures
        c.name@ == row.columns@[1]->Some_0@,
        c.identity <==> row.columns@[3]->Some_0@ == "t"@ || row.columns@[3]->Some_0@ == "true"@,
{
}

/// A row names a table if it has the schema and the name of the table that changes go to, and tables
/// that no row names are the ones that are missing. `i` is any table.
pub proof fn missing_tables_are_not_named(
    tables: Seq<PublicationTable>,
    rows: Seq<DataRow>,
    i: int,
    k: int,
)
    requires
        0 <= i < tables.len(),
        0 <= k < rows.len(),
        rows[k].columns@.len() >= 2,
    ensures
        (forall|j: int| 0 <= j < rows.len() ==> !names(#[trigger] rows[j], tables[i])) ==> not_named(
            tables,
            rows,
        ).contains(tables[i]),
        names(rows[k], tables[i]) <==> {
            &&& rows[k].columns@[0] is Some && rows[k].columns@[0]->Some_0@
                == tables[i].target_schema()
            &&& rows[k].columns@[1] is Some && rows[k].columns@[1]->Some_0@
                == tables[i].target_name()
        },
{
    if forall|j: int| 0 <= j < rows.len() ==> !names(#[trigger] rows[j], tables[i]) {
        let rows = rows;
        let p = |t: PublicationTable| !crate::replication::queries::named(rows, t);
        tables.lemma_filter_contains(p, i);
    }
}

/// A slot is where its last changes were carried to, as of when they were; how far behind it is, is
/// known apart from that.
pub proof fn slots_are_where_changes_were_carried_to(
    slot: SlotState,
    lsn: Lsn,
    lag: i64,
    now: Instant,
)
    ensures
        carried_to(slot, lsn, now).lsn == lsn,
        carried_to(slot, lsn, now).last_transaction == Some(now),
        carried_to(slot, lsn, now).lag == slot.lag,
        carried_to(slot, lsn, now).name == slot.name && carried_to(slot, lsn, now).copy_data
            == slot.copy_data,
        behind_by(slot, lag).lag == lag,
        behind_by(slot, lag).lsn == slot.lsn && behind_by(slot, lag).last_transaction
            == slot.last_transaction && behind_by(slot, lag).name == slot.name && behind_by(
            slot,
            lag,
        ).copy_data == slot.copy_data,
{
}

/// A statement that is begun runs from now on and is not over; one that failed is over, and it is
/// known why. What it is stays as it is.
pub proof fn statements_run_and_fail(
    task: SchemaStatementTask,
    failed: SchemaStatementTask,
    err: Seq<char>,
    now: Instant,
)
    requires
        failed_with(task, failed, err),
    ensures
        begun(task, now).running && begun(task, now).statement.started_at == Some(now),
        begun(task, now).done == task.done && begun(task, now).error == task.error,
        begun(task, now).statement.sql == task.statement.sql && begun(task, now).statement.id
            == task.statement.id,
        failed.done && failed.error is Some && failed.error->Some_0@ == err,
        failed.running == task.running && failed.statement == task.statement,
{
}

/// A table is looked up again only inside of a transaction, and only if something tells its rows
/// apart; it then has as many columns as the server told of, in that order, and is otherwise the same
/// table at the same position.
pub proof fn tables_are_looked_up_in_a_transaction(
    before: Table,
    after: Table,
    in_transaction: bool,
    identity: Seq<DataRow>,
    columns: Seq<DataRow>,
    r: Result<(), Error>,
)
    requires
        looked_up_again(before, after, in_transaction, identity, columns, r),
    ensures
        r is Ok <==> in_transaction && identity.len() > 0,
        r is Err ==> after == before,
        !in_transaction ==> r == Err::<(), Error>(Error::TransactionNotStarted),
        r is Ok ==> after.columns@.len() == columns.len(),
        after.lsn == before.lsn && after.table == before.table && after.publication
            == before.publication,
{
}

} // verus!
