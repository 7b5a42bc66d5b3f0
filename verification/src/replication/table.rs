//! A table whose changes are carried over, and the statements that do so.

use crate::config::general::QueryParserEngine;
use crate::pool::cluster::ShardedTables;
#[allow(unused_imports)]
use crate::pool::cluster::entry_covers;
use crate::replication::columns::{quote_identifier, Columns, NonIdentityColumnsPresence};
#[allow(unused_imports)]
use crate::replication::columns::{
    all_placed, identifier, of_identity, phrases, plain_count, present_in, renumbered, shifted,
    Phrase, Placed,
};
use crate::replication::error::{Error, TableValidationError, TableValidationErrorKind};
#[allow(unused_imports)]
use crate::replication::queries::{column_of, identity_of, table_of};
use crate::replication::queries::{
    DataRow, PublicationTable, PublicationTableColumn, ReplicaIdentity,
};
use crate::text::{concat3, owned, same};
use vstd::prelude::*;
use vstd::string::*;

verus! {

/// Position in the log of a server.
#[derive(Clone, Copy, Debug, PartialEq, Eq, Structural)]
pub struct Lsn {
    /// Bytes since the beginning of the log.
    pub lsn: i64,
}

impl Default for Lsn {
    fn default() -> (r: Self)
        ensures
            r.lsn == 0,
    {
        Lsn { lsn: 0 }
    }
}

/// A table whose changes are carried over.
#[derive(Debug)]
pub struct Table {
    /// Name of the publication.
    pub publication: String,
    /// The table.
    pub table: PublicationTable,
    /// What tells its rows apart.
    pub identity: ReplicaIdentity,
    /// Its columns.
    pub columns: Vec<PublicationTableColumn>,
    /// The rows were copied as of this position.
    pub lsn: Lsn,
    /// Which query parser is used.
    pub query_parser_engine: QueryParserEngine,
}

/// The table that changes go to, as it is written in statements.
pub open spec fn target(t: Table) -> Seq<char> {
    identifier(t.table.target_schema()) + "."@ + identifier(t.table.target_name())
}

/// All columns, each with the parameter of its own position.
pub open spec fn everything(t: Table) -> Placed {
    all_placed(t.columns@)
}

/// The columns that a change gives a value for, with parameters in sequence.
pub open spec fn given(t: Table, present: NonIdentityColumnsPresence) -> Placed {
    all_placed(present_in(t.columns@, present.marks@))
}

/// Names and values of all columns.
pub open spec fn row_sql(t: Table) -> Seq<char> {
    "INSERT INTO "@ + target(t) + " ("@ + phrases(Phrase::Name, everything(t), ", "@)
        + ") VALUES ("@ + phrases(Phrase::Placeholder, everything(t), ", "@) + ")"@
}

/// Change some columns of the rows that others tell apart.
pub open spec fn update_sql(t: Table, columns: Placed) -> Seq<char> {
    "UPDATE "@ + target(t) + " SET "@ + phrases(
        Phrase::Equals,
        of_identity(columns, false),
        ", "@,
    ) + " WHERE "@ + phrases(Phrase::Equals, of_identity(columns, true), " AND "@)
}

/// One row that has all these values. The number of the table is part of the answer: in a
/// partitioned table the place of a row alone does not tell which partition it is in.
pub open spec fn one_row_sql(t: Table) -> Seq<char> {
    "(SELECT tableoid, ctid FROM "@ + target(t) + " WHERE "@ + phrases(
        Phrase::NotDistinct,
        everything(t),
        " AND "@,
    ) + " LIMIT 1)"@
}

/// Change some columns of one row that has all these values.
pub open spec fn update_one_sql(t: Table, columns: Placed) -> Seq<char> {
    "UPDATE "@ + target(t) + " SET "@ + phrases(Phrase::Equals, columns, ", "@)
        + " WHERE (tableoid, ctid) = "@ + one_row_sql(t)
}

/// Some column tells rows apart.
pub open spec fn has_identity(t: Table) -> bool {
    exists|i: int| 0 <= i < t.columns@.len() && (#[trigger] t.columns@[i]).identity
}

/// Why changes of the table cannot be carried over, if they cannot.
pub open spec fn flaw(t: Table) -> Option<TableValidationErrorKind> {
    if t.identity.identity@ == "f"@ {
        None
    } else if t.identity.identity@ == "n"@ {
        Some(TableValidationErrorKind::ReplicaIdentityNothing)
    } else if has_identity(t) {
        None
    } else {
        Some(TableValidationErrorKind::NoIdentityColumns)
    }
}

/// `after` and `r` are what came of looking the columns of a table up again.
pub open spec fn looked_up_again(
    before: Table,
    after: Table,
    in_transaction: bool,
    identity: Seq<DataRow>,
    columns: Seq<DataRow>,
    r: Result<(), Error>,
) -> bool {
    &&& !in_transaction ==> r == Err::<(), Error>(Error::TransactionNotStarted) && after == before
    &&& in_transaction && identity.len() == 0 ==> r == Err::<(), Error>(
        Error::NoReplicaIdentity(before.table.schema, before.table.name),
    ) && after == before
    &&& in_transaction && identity.len() > 0 ==> {
        &&& r is Ok
        &&& identity_of(identity.last(), after.identity)
        &&& after.columns@.len() == columns.len()
        &&& forall|i: int|
            0 <= i < columns.len() ==> column_of(columns[i], #[trigger] after.columns@[i])
        &&& after == (Table { identity: after.identity, columns: after.columns, ..before })
    }
}

/// Some column of the table decides which shard a row is on.
pub open spec fn decides_shard(t: Table, tables: ShardedTables) -> bool {
    exists|i: int| #[trigger] column_decides(t, tables, i)
}

/// This column of the table decides which shard a row is on.
pub open spec fn column_decides(t: Table, tables: ShardedTables, i: int) -> bool {
    0 <= i < t.columns@.len() && exists|k: int|
        0 <= k < tables.tables@.len() && entry_covers(
            #[trigger] tables.tables@[k],
            t.table.schema@,
            t.table.name@,
            t.columns@[i].name@,
        )
}

impl Table {
    /// A table that was just looked up. None of its rows has been copied.
    pub fn new(
        publication: &str,
        table: PublicationTable,
        identity: ReplicaIdentity,
        columns: Vec<PublicationTableColumn>,
        query_parser_engine: QueryParserEngine,
    ) -> (r: Self)
        ensures
            r.publication@ == publication@,
            r.table == table,
            r.identity == identity,
            r.columns == columns,
            r.lsn.lsn == 0,
            r.query_parser_engine == query_parser_engine,
    {
        Table {
            publication: owned(publication),
            table,
            identity,
            columns,
            lsn: Lsn::default(),
            query_parser_engine,
        }
    }

    /// What tells the table from other ones: its schema and its name.
    pub fn key(&self) -> (r: (String, String))
        ensures
            r == (self.table.schema, self.table.name),
    {
        (self.table.schema.clone(), self.table.name.clone())
    }

    /// Changes of the table can be carried over: its rows can be told apart by all of their values,
    /// or by some columns.
    pub fn valid(&self) -> (r: Result<(), TableValidationError>)
        ensures
            match r {
                Ok(_) => flaw(*self) is None,
                Err(e) => flaw(*self) == Some(e.kind) && e.table_name@ == self.table.shown(),
            },
    {
        let identity = self.identity.identity.as_str();
        if same(identity, "f") {
            return Ok(());
        }
        if same(identity, "n") {
            return Err(
                TableValidationError {
                    table_name: self.table.to_string(),
                    kind: TableValidationErrorKind::ReplicaIdentityNothing,
                },
            );
        }
        for i in 0..self.columns.len()
            invariant
                self.identity.identity@ == identity@,
                identity@ != "f"@,
                identity@ != "n"@,
                forall|k: int| 0 <= k < i ==> !(#[trigger] self.columns@[k]).identity,
        {
            if self.columns[i].identity {
                assert(self.columns@[i as int].identity);
                return Ok(());
            }
        }
        Err(
            TableValidationError {
                table_name: self.table.to_string(),
                kind: TableValidationErrorKind::NoIdentityColumns,
            },
        )
    }

    fn target_text(&self) -> (r: String)
        ensures
            r@ == target(*self),
    {
        concat3(
            quote_identifier(self.table.destination_schema()).as_str(),
            ".",
            quote_identifier(self.table.destination_name()).as_str(),
        )
    }

    /// A row is inserted. The parameters are the values of all columns.
    pub fn insert(&self) -> (r: String)
        ensures
            r@ == row_sql(*self),
    {
        let columns = Columns::all(&self.columns);
        let mut sql = concat3("INSERT INTO ", self.target_text().as_str(), " (");
        sql.append(columns.names().as_str());
        sql.append(") VALUES (");
        sql.append(columns.placeholders().as_str());
        sql.append(")");
        sql
    }

    /// A row is inserted, or takes the place of the one that it cannot be told apart from. The
    /// parameters are the values of all columns.
    pub fn upsert(&self) -> (r: String)
        ensures
            r@ == row_sql(*self) + " ON CONFLICT ("@ + phrases(
                Phrase::Name,
                of_identity(everything(*self), true),
                ", "@,
            ) + ") DO UPDATE SET "@ + phrases(
                Phrase::Equals,
                of_identity(everything(*self), false),
                ", "@,
            ),
    {
        let mut sql = self.insert();
        sql.append(" ON CONFLICT (");
        sql.append(Columns::all(&self.columns).filter_identity(true).names().as_str());
        sql.append(") DO UPDATE SET ");
        sql.append(Columns::all(&self.columns).filter_identity(false).assignments().as_str());
        sql
    }

    /// A row is changed. The parameters are the values of all columns.
    pub fn update(&self) -> (r: String)
        ensures
            r@ == update_sql(*self, everything(*self)),
    {
        let mut sql = concat3("UPDATE ", self.target_text().as_str(), " SET ");
        sql.append(Columns::all(&self.columns).filter_identity(false).assignments().as_str());
        sql.append(" WHERE ");
        sql.append(Columns::all(&self.columns).filter_identity(true).predicates().as_str());
        sql
    }

    /// Some columns of a row are changed. The parameters are the values that the change gives, in
    /// the order of the columns. A change without a value to set is none.
    pub fn update_partial(&self, present: &NonIdentityColumnsPresence) -> (r: String)
        requires
            present.some(),
        ensures
            r@ == update_sql(*self, given(*self, *present)),
    {
        let set = Columns::present(&self.columns, present);
        assert(set@ == given(*self, *present));
        let mut sql = concat3("UPDATE ", self.target_text().as_str(), " SET ");
        sql.append(set.filter_identity(false).assignments().as_str());
        sql.append(" WHERE ");
        let which = Columns::present(&self.columns, present);
        assert(which@ == given(*self, *present));
        sql.append(which.filter_identity(true).predicates().as_str());
        sql
    }

    /// A row is deleted. The parameters are the values of the columns that tell rows apart.
    pub fn delete(&self) -> (r: String)
        ensures
            r@ == "DELETE FROM "@ + target(*self) + " WHERE "@ + phrases(
                Phrase::Equals,
                renumbered(of_identity(everything(*self), true)),
                " AND "@,
            ),
    {
        let mut sql = concat3("DELETE FROM ", self.target_text().as_str(), " WHERE ");
        let columns = Columns::all(&self.columns).filter_identity(true).reindexed();
        sql.append(columns.predicates().as_str());
        sql
    }

    /// A row is inserted unless it is there already. The parameters are the values of all columns.
    /// For tables whose rows are told apart by all of their values.
    pub fn upsert_full_identity(&self) -> (r: String)
        ensures
            r@ == row_sql(*self) + " ON CONFLICT DO NOTHING"@,
    {
        let mut sql = self.insert();
        sql.append(" ON CONFLICT DO NOTHING");
        sql
    }

    /// One row is deleted, even if others are like it. The parameters are its values.
    pub fn delete_full_identity(&self) -> (r: String)
        ensures
            r@ == "DELETE FROM "@ + target(*self) + " WHERE (tableoid, ctid) = "@ + one_row_sql(
                *self,
            ),
    {
        let mut sql = concat3(
            "DELETE FROM ",
            self.target_text().as_str(),
            " WHERE (tableoid, ctid) = ",
        );
        sql.append(self.ctid_subquery().as_str());
        sql
    }

    /// One row is changed, even if others are like it. The parameters are its old values, then its
    /// new ones.
    pub fn update_full_identity(&self) -> (r: String)
        ensures
            r@ == update_one_sql(
                *self,
                shifted(everything(*self), self.columns@.len() as int),
            ),
    {
        let columns = Columns::all(&self.columns).with_offset(self.columns.len());
        let mut sql = concat3("UPDATE ", self.target_text().as_str(), " SET ");
        sql.append(columns.assignments().as_str());
        sql.append(" WHERE (tableoid, ctid) = ");
        sql.append(self.ctid_subquery().as_str());
        sql
    }

    /// Some columns of one row are changed, even if others are like it. The parameters are its old
    /// values, then the new values that the change gives. A change without a value to set is none.
    pub fn update_full_identity_partial_set(&self, present: &NonIdentityColumnsPresence) -> (r:
        String)
        requires
            present.some(),
        ensures
            r@ == update_one_sql(
                *self,
                shifted(
                    of_identity(given(*self, *present), false),
                    self.columns@.len() as int,
                ),
            ),
    {
        let columns = Columns::present(&self.columns, present);
        assert(columns@ == given(*self, *present));
        let columns = columns.filter_identity(false).with_offset(self.columns.len());
        let mut sql = concat3("UPDATE ", self.target_text().as_str(), " SET ");
        sql.append(columns.assignments().as_str());
        sql.append(" WHERE (tableoid, ctid) = ");
        sql.append(self.ctid_subquery().as_str());
        sql
    }

    fn ctid_subquery(&self) -> (r: String)
        ensures
            r@ == one_row_sql(*self),
    {
        let columns = Columns::all(&self.columns);
        let mut sql = concat3(
            "(SELECT tableoid, ctid FROM ",
            self.target_text().as_str(),
            " WHERE ",
        );
        sql.append(columns.not_distinct_from_predicates().as_str());
        sql.append(" LIMIT 1)");
        sql
    }

    /// Rows are told apart by all of their values.
    pub fn is_identity_full(&self) -> (r: bool)
        ensures
            r == (self.identity.identity@ == "f"@),
    {
        same(self.identity.identity.as_str(), "f")
    }

    /// Some column of the table decides which shard a row is on.
    pub fn is_sharded(&self, tables: &ShardedTables) -> (r: bool)
        ensures
            r == decides_shard(*self, *tables),
    {
        for i in 0..self.columns.len()
            invariant
                forall|k: int| 0 <= k < i ==> !#[trigger] column_decides(*self, *tables, k),
        {
            let found = tables.get_table(
                self.table.schema.as_str(),
                self.table.name.as_str(),
                self.columns[i].name.as_str(),
            );
            if found.is_some() {
                assert(column_decides(*self, *tables, i as int));
                return true;
            }
        }
        false
    }

    /// The query that tells whether the table that changes go to has rows.
    pub fn has_rows_query(&self) -> (r: String)
        ensures
            r@ == "SELECT 1 FROM "@ + target(*self) + " LIMIT 1"@,
    {
        concat3("SELECT 1 FROM ", self.target_text().as_str(), " LIMIT 1")
    }

    /// The columns of the table as of now, and what tells its rows apart. They have to be read
    /// inside a transaction.
    pub fn reload(
        &mut self,
        in_transaction: bool,
        identity: &Vec<DataRow>,
        columns: &Vec<DataRow>,
    ) -> (r: Result<(), Error>)
        ensures
            looked_up_again(*old(self), *final(self), in_transaction, identity@, columns@, r),
    {
        if !in_transaction {
            return Err(Error::TransactionNotStarted);
        }
        match ReplicaIdentity::from_rows(&self.table, identity) {
            Ok(identity) => {
                self.identity = identity;
                self.columns = PublicationTableColumn::from_rows(columns);
                Ok(())
            },
            Err(err) => Err(err),
        }
    }
}

/// The answer decides whether there are rows: it has a row, or it is an error.
pub open spec fn decided_at(answers: Seq<Result<Vec<char>, Error>>, i: int) -> bool {
    match answers[i] {
        Ok(codes) => codes@.contains('D'),
        Err(_) => true,
    }
}

fn has_row(codes: &Vec<char>) -> (r: bool)
    ensures
        r == codes@.contains('D'),
{
    for i in 0..codes.len()
        invariant
            forall|k: int| 0 <= k < i ==> #[trigger] codes@[k] != 'D',
    {
        if codes[i] == 'D' {
            assert(codes@[i as int] == 'D');
            return true;
        }
    }
    false
}

/// `r` is whether the answers say that there are rows: the first one that decides counts.
pub open spec fn rows_found(
    answers: Seq<Result<Vec<char>, Error>>,
    r: Result<bool, Error>,
) -> bool {
    match r {
        Ok(true) => exists|i: int|
            0 <= i < answers.len() && #[trigger] decided_at(answers, i) && answers[i] is Ok
                && forall|k: int| 0 <= k < i ==> !#[trigger] decided_at(answers, k),
        Ok(false) => forall|k: int| 0 <= k < answers.len() ==> !#[trigger] decided_at(answers, k),
        Err(e) => exists|i: int|
            0 <= i < answers.len() && #[trigger] decided_at(answers, i) && answers[i] == Err::<
                Vec<char>,
                Error,
            >(e) && forall|k: int| 0 <= k < i ==> !#[trigger] decided_at(answers, k),
    }
}

/// Some shard has rows of the table. `answers` holds the kinds of the messages with which the
/// shards answered, one shard after the other; `D` is a row. The shards are asked until one has
/// rows or fails.
pub fn destination_has_rows(answers: Vec<Result<Vec<char>, Error>>) -> (r: Result<bool, Error>)
    ensures
        rows_found(answers@, r),
{
    let ghost all = answers@;
    let mut rest = answers;
    let ghost mut seen: int = 0;
    assert(all.skip(0) == all);
    while rest.len() > 0
        invariant
            all == answers@,
            0 <= seen <= all.len(),
            rest@ == all.skip(seen),
            forall|k: int| 0 <= k < seen ==> !#[trigger] decided_at(all, k),
        decreases rest@.len(),
    {
        let answer = rest.remove(0);
        assert(answer == all[seen]);
        match answer {
            Ok(codes) => {
                if has_row(&codes) {
                    assert(decided_at(all, seen));
                    return Ok(true);
                }
            },
            Err(err) => {
                assert(decided_at(all, seen));
                return Err(err);
            },
        }
        proof {
            assert(all.skip(seen).remove(0) == all.skip(seen + 1));
            seen = seen + 1;
        }
    }
    Ok(false)
}

/// In statements that take the values of all columns, the parameter of each column is its own
/// position: the same in every clause, so that the values can be bound as they come.
pub proof fn parameters_follow_columns(t: Table, identity: bool, i: int)
    requires
        0 <= i < of_identity(everything(t), identity).len(),
    ensures
        ({
            let c = of_identity(everything(t), identity)[i];
            &&& 0 <= c.0 < t.columns@.len()
            &&& c.1 == t.columns@[c.0]
            &&& c.1.identity == identity
        }),
{
    lemma_filtered(everything(t), identity, i);
}

proof fn lemma_filtered(columns: Placed, identity: bool, i: int)
    requires
        0 <= i < of_identity(columns, identity).len(),
    ensures
        columns.contains(of_identity(columns, identity)[i]),
        of_identity(columns, identity)[i].1.identity == identity,
{
    let p = |c: (int, PublicationTableColumn)| c.1.identity == identity;
    columns.lemma_filter_pred(p, i);
    columns.lemma_filter_contains_rev(p, of_identity(columns, identity)[i]);
}

/// The parameter is used for one of the columns.
pub open spec fn uses(columns: Placed, parameter: int) -> bool {
    exists|k: int| 0 <= k < columns.len() && (#[trigger] columns[k]).0 == parameter
}

/// In a partial change, each parameter is the value of one column, and is used once: in the
/// assignments or in the condition.
pub proof fn partial_changes_use_each_parameter(
    t: Table,
    present: NonIdentityColumnsPresence,
    i: int,
)
    requires
        0 <= i < given(t, present).len(),
    ensures
        ({
            let c = given(t, present)[i];
            &&& c.0 == i
            &&& of_identity(given(t, present), c.1.identity).contains(c)
            &&& !uses(of_identity(given(t, present), !c.1.identity), i)
        }),
{
    let columns = given(t, present);
    let c = columns[i];
    let p = |x: (int, PublicationTableColumn)| x.1.identity == c.1.identity;
    columns.lemma_filter_contains(p, i);
    let others = of_identity(columns, !c.1.identity);
    assert forall|k: int| 0 <= k < others.len() implies (#[trigger] others[k]).0 != i by {
        lemma_filtered(columns, !c.1.identity, k);
    }
}

/// A change of a table whose rows are told apart by all of their values has the old values in its
/// first parameters, one for each column, and the new values in those after them, in sequence.
pub proof fn old_values_come_first(t: Table, present: NonIdentityColumnsPresence, i: int)
    requires
        !has_identity(t),
    ensures
        0 <= i < t.columns@.len() ==> everything(t)[i].0 == i && shifted(
            everything(t),
            t.columns@.len() as int,
        )[i].0 == t.columns@.len() + i,
        of_identity(given(t, present), false) == given(t, present),
        0 <= i < given(t, present).len() ==> shifted(
            of_identity(given(t, present), false),
            t.columns@.len() as int,
        )[i].0 == t.columns@.len() + i,
{
    lemma_present(t.columns@, present.marks@);
    let columns = given(t, present);
    assert forall|k: int| 0 <= k < columns.len() implies !(#[trigger] columns[k]).1.identity by {
        let c = present_in(t.columns@, present.marks@)[k];
        assert(t.columns@.contains(c));
        let j = choose|j: int| 0 <= j < t.columns@.len() && t.columns@[j] == c;
        assert(!t.columns@[j].identity);
    }
    lemma_unfiltered(columns);
}

proof fn lemma_present(columns: Seq<PublicationTableColumn>, marks: Seq<bool>)
    ensures
        forall|k: int|
            0 <= k < present_in(columns, marks).len() ==> columns.contains(
                #[trigger] present_in(columns, marks)[k],
            ),
    decreases columns.len(),
{
    if columns.len() > 0 {
        let before = columns.drop_last();
        lemma_present(before, marks);
        assert forall|k: int| 0 <= k < present_in(columns, marks).len() implies columns.contains(
            #[trigger] present_in(columns, marks)[k],
        ) by {
            if k < present_in(before, marks).len() {
                assert(before.contains(present_in(before, marks)[k]));
                let j = choose|j: int|
                    0 <= j < before.len() && before[j] == present_in(before, marks)[k];
                assert(columns[j] == before[j]);
            } else {
                assert(columns[columns.len() - 1] == columns.last());
            }
        }
    }
}

proof fn lemma_unfiltered(columns: Placed)
    requires
        forall|k: int| 0 <= k < columns.len() ==> !(#[trigger] columns[k]).1.identity,
    ensures
        of_identity(columns, false) == columns,
    decreases columns.len(),
{
    reveal(Seq::filter);
    if columns.len() > 0 {
        lemma_unfiltered(columns.drop_last());
        assert(columns.drop_last().push(columns.last()) == columns);
    }
}

} // verus!
