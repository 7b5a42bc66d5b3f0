//! Loading the tables of a publication, and copying the rows of a table. The queries themselves are
//! made elsewhere: what is here decides what comes next.

use crate::config::general::QueryParserEngine;
use crate::replication::error::Error;
#[allow(unused_imports)]
use crate::replication::queries::{
    column_of, identity_of, literal, table_of, COLUMNS, REPLICA_IDENTIFY, TABLES,
};
use crate::replication::queries::{
    DataRow, PublicationTable, PublicationTableColumn, ReplicaIdentity,
};
use crate::replication::table::{Lsn, Table};
use crate::text::owned;
#[allow(unused_imports)]
use crate::text::{decimal, substituted};
use vstd::prelude::*;

verus! {

/// What to do next to load the tables of a publication.
#[derive(Debug)]
pub enum LoadAction {
    /// Send this query and hand back the rows.
    Query(String),
    /// All tables are loaded.
    Finish,
}

/// Tables of a publication while they are loaded: first the list of tables, then for each of them
/// what tells its rows apart, and its columns.
#[derive(Debug)]
pub struct TableLoad {
    /// Name of the publication.
    pub publication: String,
    /// Which query parser is used.
    pub query_parser_engine: QueryParserEngine,
    /// The tables of the publication, once they are known.
    pub listed: Option<Vec<PublicationTable>>,
    /// What tells the rows of the current table apart, once that is known.
    pub identity: Option<ReplicaIdentity>,
    /// The tables that are loaded.
    pub tables: Vec<Table>,
}

/// The query for what tells the rows of a table apart.
pub open spec fn identity_query(t: PublicationTable) -> Seq<char> {
    substituted(
        substituted(REPLICA_IDENTIFY@, "$1"@, literal(t.schema@)),
        "$2"@,
        literal(t.name@),
    )
}

/// The query for the columns of a table.
pub open spec fn columns_query(i: ReplicaIdentity) -> Seq<char> {
    substituted(
        substituted(COLUMNS@, "$1"@, decimal(i.oid.0 as nat)),
        "$2"@,
        decimal(i.oid.0 as nat),
    )
}

/// `after` and `r` are what an answer leads to while the tables of a publication are loaded.
pub open spec fn taken_in(
    before: TableLoad,
    after: TableLoad,
    rows: Seq<DataRow>,
    r: Result<LoadAction, Error>,
) -> bool {
    &&& after.publication == before.publication
    &&& after.query_parser_engine == before.query_parser_engine
    &&& match before.listed {
        None => {
            &&& r matches Ok(action) && after.asks_next(action)
            &&& after.tables@.len() == 0
            &&& after.identity is None
            &&& after.listed matches Some(list) && list@.len() == rows.len()
                && forall|i: int|
                0 <= i < rows.len() ==> table_of(rows[i], #[trigger] list@[i])
        },
        Some(list) => if before.complete() {
            r == Ok::<LoadAction, Error>(LoadAction::Finish) && after == before
        } else {
            let table = list@[before.tables@.len() as int];
            match before.identity {
                None => if rows.len() == 0 {
                    r == Err::<LoadAction, Error>(
                        Error::NoReplicaIdentity(table.schema, table.name),
                    ) && after == before
                } else {
                    &&& after.identity matches Some(identity) && identity_of(
                        rows.last(),
                        identity,
                    )
                    &&& r matches Ok(LoadAction::Query(sql)) && sql@ == columns_query(
                        after.identity->0,
                    )
                    &&& after == (TableLoad {
                        identity: after.identity,
                        ..before
                    })
                },
                Some(identity) => {
                    let loaded = after.tables@.last();
                    &&& r matches Ok(action) && after.asks_next(action)
                    &&& after.tables@.len() == before.tables@.len() + 1
                    &&& after.tables@.drop_last() == before.tables@
                    &&& loaded.table == table
                    &&& loaded.identity == identity
                    &&& loaded.lsn.lsn == 0
                    &&& loaded.query_parser_engine == before.query_parser_engine
                    &&& loaded.columns@.len() == rows.len()
                    &&& forall|i: int|
                        0 <= i < rows.len() ==> column_of(
                            rows[i],
                            #[trigger] loaded.columns@[i],
                        )
                    &&& after.listed == before.listed
                    &&& after.identity is None
                },
            }
        },
    }
}

impl TableLoad {
    /// The loaded tables are the first ones of the list, in its order.
    pub open spec fn wf(&self) -> bool {
        match self.listed {
            None => self.tables@.len() == 0 && self.identity is None,
            Some(list) => {
                &&& self.tables@.len() <= list@.len()
                &&& self.identity is Some ==> self.tables@.len() < list@.len()
                &&& forall|i: int|
                    0 <= i < self.tables@.len() ==> (#[trigger] self.tables@[i]).table == list@[i]
                        && self.tables@[i].publication@ == self.publication@
            },
        }
    }

    /// All tables are loaded.
    pub open spec fn complete(&self) -> bool {
        self.listed matches Some(list) && self.tables@.len() == list@.len()
    }

    /// What is asked next: what tells the rows of the next table apart, if there is one.
    pub open spec fn asks_next(&self, action: LoadAction) -> bool {
        if self.complete() {
            action == LoadAction::Finish
        } else {
            self.listed matches Some(list) && (action matches LoadAction::Query(sql) && sql@
                == identity_query(list@[self.tables@.len() as int]))
        }
    }

    /// Begin to load the tables of a publication.
    pub fn load(publication: &str, query_parser_engine: QueryParserEngine) -> (r: (
        Self,
        LoadAction,
    ))
        ensures
            r.0.wf(),
            r.0.publication@ == publication@,
            r.0.query_parser_engine == query_parser_engine,
            r.0.listed is None,
            r.1 matches LoadAction::Query(sql) && sql@ == substituted(
                TABLES@,
                "$1"@,
                literal(publication@),
            ),
    {
        let load = TableLoad {
            publication: owned(publication),
            query_parser_engine,
            listed: None,
            identity: None,
            tables: Vec::new(),
        };
        (load, LoadAction::Query(PublicationTable::load(publication)))
    }

    fn next(&self) -> (r: LoadAction)
        requires
            self.wf(),
            self.listed is Some,
        ensures
            self.asks_next(r),
    {
        match &self.listed {
            Some(list) => {
                if self.tables.len() < list.len() {
                    LoadAction::Query(ReplicaIdentity::load(&list[self.tables.len()]))
                } else {
                    LoadAction::Finish
                }
            },
            None => LoadAction::Finish,
        }
    }

    /// Take in the answer to the last query.
    pub fn answer(&mut self, rows: &Vec<DataRow>) -> (r: Result<LoadAction, Error>)
        requires
            old(self).wf(),
        ensures
            final(self).wf(),
            taken_in(*old(self), *final(self), rows@, r),
    {
        let table = match &self.listed {
            None => None,
            Some(list) => {
                if self.tables.len() >= list.len() {
                    return Ok(LoadAction::Finish);
                }
                Some(list[self.tables.len()].clone())
            },
        };
        match table {
            None => {
                let mut list: Vec<PublicationTable> = Vec::new();
                for i in 0..rows.len()
                    invariant
                        list@.len() == i,
                        forall|k: int| 0 <= k < i ==> table_of(rows@[k], #[trigger] list@[k]),
                {
                    list.push(PublicationTable::from_row(&rows[i]));
                }
                self.listed = Some(list);
                Ok(self.next())
            },
            Some(table) => match self.identity.take() {
                None => match ReplicaIdentity::from_rows(&table, rows) {
                    Ok(identity) => {
                        let sql = PublicationTableColumn::load(&identity);
                        self.identity = Some(identity);
                        Ok(LoadAction::Query(sql))
                    },
                    Err(err) => Err(err),
                },
                Some(identity) => {
                    let columns = PublicationTableColumn::from_rows(rows);
                    let loaded = Table::new(
                        self.publication.as_str(),
                        table,
                        identity,
                        columns,
                        self.query_parser_engine,
                    );
                    let ghost before = self.tables@;
                    self.tables.push(loaded);
                    assert(self.tables@.drop_last() == before);
                    Ok(self.next())
                },
            },
        }
    }
}

/// A step of copying the rows of a table.
#[derive(Clone, Copy, Debug, PartialEq, Eq, Structural)]
pub enum SyncStep {
    /// Record the statement.
    Describe,
    /// Connect to the destination.
    ConnectDestination,
    /// Connect to the source.
    ConnectSource,
    /// Create a replication slot, which begins a transaction at the source.
    CreateSlot,
    /// Look at the table again, inside that transaction.
    Reload,
    /// Begin to read rows.
    StartSource,
    /// Begin to write rows.
    StartDestination,
    /// Read a row.
    ReadRow,
    /// Write the row.
    WriteRow,
    /// End the copy at the destination.
    CopyDone,
    /// Disconnect from the destination.
    Disconnect,
    /// End the transaction at the source.
    Commit,
    /// Begin to read changes.
    StartReplication,
    /// Tell the source that nothing is needed from before this position.
    Acknowledge(Lsn),
    /// Stop reading changes.
    StopReplication,
    /// Read what the source still sends.
    Drain,
    /// The rows were copied as of this position.
    Finish(Lsn),
}

/// What came of a step.
#[derive(Debug)]
pub enum SyncEvent {
    /// The step is done.
    Done,
    /// The slot was created at this position.
    SlotCreated(Lsn),
    /// There is something to go on with: a row that was read, or a message of the source.
    More,
    /// There is nothing more to read.
    End,
    /// Someone stopped the copy.
    Aborted,
    /// Something went wrong.
    Failed(Error),
}

/// The step that comes next, if the event fits the step. `lsn` is the position of the slot.
pub open spec fn step_after(step: SyncStep, event: SyncEvent, lsn: Lsn) -> Option<SyncStep> {
    match (step, event) {
        (SyncStep::Describe, SyncEvent::Done) => Some(SyncStep::ConnectDestination),
        (SyncStep::ConnectDestination, SyncEvent::Done) => Some(SyncStep::ConnectSource),
        (SyncStep::ConnectSource, SyncEvent::Done) => Some(SyncStep::CreateSlot),
        (SyncStep::CreateSlot, SyncEvent::SlotCreated(_)) => Some(SyncStep::Reload),
        (SyncStep::Reload, SyncEvent::Done) => Some(SyncStep::StartSource),
        (SyncStep::StartSource, SyncEvent::Done) => Some(SyncStep::StartDestination),
        (SyncStep::StartDestination, SyncEvent::Done) => Some(SyncStep::ReadRow),
        (SyncStep::ReadRow, SyncEvent::More) => Some(SyncStep::WriteRow),
        (SyncStep::ReadRow, SyncEvent::End) => Some(SyncStep::CopyDone),
        (SyncStep::WriteRow, SyncEvent::Done) => Some(SyncStep::ReadRow),
        (SyncStep::CopyDone, SyncEvent::Done) => Some(SyncStep::Disconnect),
        (SyncStep::Disconnect, SyncEvent::Done) => Some(SyncStep::Commit),
        (SyncStep::Commit, SyncEvent::Done) => Some(SyncStep::StartReplication),
        (SyncStep::StartReplication, SyncEvent::Done) => Some(SyncStep::Acknowledge(lsn)),
        (SyncStep::Acknowledge(_), SyncEvent::Done) => Some(SyncStep::StopReplication),
        (SyncStep::StopReplication, SyncEvent::Done) => Some(SyncStep::Drain),
        (SyncStep::Drain, SyncEvent::More) => Some(SyncStep::Drain),
        (SyncStep::Drain, SyncEvent::End) => Some(SyncStep::Finish(lsn)),
        _ => None,
    }
}

/// `after` and `r` are what came of an event while the rows of a table are copied.
pub open spec fn went_on(
    before: Table,
    after: Table,
    step: SyncStep,
    event: SyncEvent,
    r: Result<SyncStep, Error>,
) -> bool {
    &&& after == (Table {
        lsn: match (step, event) {
            (SyncStep::CreateSlot, SyncEvent::SlotCreated(lsn)) => lsn,
            _ => before.lsn,
        },
        ..before
    })
    &&& r == match event {
        SyncEvent::Failed(err) => Err::<SyncStep, Error>(err),
        SyncEvent::Aborted => if step == SyncStep::WriteRow {
            Err(Error::CopyAborted(before.table))
        } else {
            Err(Error::OutOfOrder)
        },
        _ => match step_after(step, event, after.lsn) {
            Some(next) => Ok(next),
            None => Err(Error::OutOfOrder),
        },
    }
}

impl Table {
    /// Go on copying the rows of the table. The copy can be stopped while a row is written; an error
    /// ends it at any step.
    pub fn data_sync(&mut self, step: SyncStep, event: SyncEvent) -> (r: Result<SyncStep, Error>)
        ensures
            went_on(*old(self), *final(self), step, event, r),
    {
        match (step, event) {
            (_, SyncEvent::Failed(err)) => Err(err),
            (SyncStep::WriteRow, SyncEvent::Aborted) => Err(Error::CopyAborted(self.table.clone())),
            (SyncStep::Describe, SyncEvent::Done) => Ok(SyncStep::ConnectDestination),
            (SyncStep::ConnectDestination, SyncEvent::Done) => Ok(SyncStep::ConnectSource),
            (SyncStep::ConnectSource, SyncEvent::Done) => Ok(SyncStep::CreateSlot),
            (SyncStep::CreateSlot, SyncEvent::SlotCreated(lsn)) => {
                self.lsn = lsn;
                Ok(SyncStep::Reload)
            },
            (SyncStep::Reload, SyncEvent::Done) => Ok(SyncStep::StartSource),
            (SyncStep::StartSource, SyncEvent::Done) => Ok(SyncStep::StartDestination),
            (SyncStep::StartDestination, SyncEvent::Done) => Ok(SyncStep::ReadRow),
            (SyncStep::ReadRow, SyncEvent::More) => Ok(SyncStep::WriteRow),
            (SyncStep::ReadRow, SyncEvent::End) => Ok(SyncStep::CopyDone),
            (SyncStep::WriteRow, SyncEvent::Done) => Ok(SyncStep::ReadRow),
            (SyncStep::CopyDone, SyncEvent::Done) => Ok(SyncStep::Disconnect),
            (SyncStep::Disconnect, SyncEvent::Done) => Ok(SyncStep::Commit),
            (SyncStep::Commit, SyncEvent::Done) => Ok(SyncStep::StartReplication),
            (SyncStep::StartReplication, SyncEvent::Done) => Ok(SyncStep::Acknowledge(self.lsn)),
            (SyncStep::Acknowledge(_), SyncEvent::Done) => Ok(SyncStep::StopReplication),
            (SyncStep::StopReplication, SyncEvent::Done) => Ok(SyncStep::Drain),
            (SyncStep::Drain, SyncEvent::More) => Ok(SyncStep::Drain),
            (SyncStep::Drain, SyncEvent::End) => Ok(SyncStep::Finish(self.lsn)),
            _ => Err(Error::OutOfOrder),
        }
    }
}

/// How far along a step is.
pub open spec fn stage(step: SyncStep) -> int {
    match step {
        SyncStep::Describe => 0,
        SyncStep::ConnectDestination => 1,
        SyncStep::ConnectSource => 2,
        SyncStep::CreateSlot => 3,
        SyncStep::Reload => 4,
        SyncStep::StartSource => 5,
        SyncStep::StartDestination => 6,
        SyncStep::ReadRow => 7,
        SyncStep::WriteRow => 7,
        SyncStep::CopyDone => 8,
        SyncStep::Disconnect => 9,
        SyncStep::Commit => 10,
        SyncStep::StartReplication => 11,
        SyncStep::Acknowledge(_) => 12,
        SyncStep::StopReplication => 13,
        SyncStep::Drain => 14,
        SyncStep::Finish(_) => 15,
    }
}

/// Steps of one copy: each follows from the one before it.
pub open spec fn is_run(steps: Seq<SyncStep>, events: Seq<SyncEvent>, lsn: Lsn) -> bool {
    &&& steps.len() == events.len() + 1
    &&& steps[0] == SyncStep::Describe
    &&& forall|i: int|
        0 <= i < events.len() ==> step_after(#[trigger] steps[i], events[i], lsn) == Some(
            steps[i + 1],
        )
}

/// A copy goes on to the next stage or stays where it is, and never goes back.
pub proof fn copies_go_forward(step: SyncStep, event: SyncEvent, lsn: Lsn)
    ensures
        step_after(step, event, lsn) matches Some(next) ==> stage(step) <= stage(next) <= stage(
            step,
        ) + 1,
        step_after(step, event, lsn) matches Some(next) ==> (stage(next) == stage(step) ==> step
            == SyncStep::ReadRow || step == SyncStep::WriteRow || step == SyncStep::Drain),
        step_after(step, event, lsn) == Some(SyncStep::Finish(lsn)) ==> step == SyncStep::Drain,
{
}

/// A copy does not come to a stage before it was at all the earlier ones: the source is told to
/// forget the past only when the copy is done at the destination and the transaction at the source
/// is over.
pub proof fn nothing_is_left_out(
    steps: Seq<SyncStep>,
    events: Seq<SyncEvent>,
    lsn: Lsn,
    last: int,
    earlier: int,
)
    requires
        is_run(steps, events, lsn),
        0 <= last < steps.len(),
        0 <= earlier <= stage(steps[last]),
    ensures
        exists|i: int| 0 <= i <= last && stage(#[trigger] steps[i]) == earlier,
    decreases last,
{
    if stage(steps[last]) == earlier {
        assert(stage(steps[last]) == earlier);
    } else if last > 0 {
        let before = steps[last - 1];
        assert(step_after(before, events[last - 1], lsn) == Some(steps[last - 1 + 1]));
        copies_go_forward(before, events[last - 1], lsn);
        nothing_is_left_out(steps, events, lsn, last - 1, earlier);
        let i = choose|i: int| 0 <= i <= last - 1 && stage(#[trigger] steps[i]) == earlier;
        assert(stage(steps[i]) == earlier);
    }
}

/// The tables of a publication are loaded one after the other, in the order of the list: first the
/// list, then for each table what tells its rows apart, then its columns, all of them. A table whose
/// rows cannot be told apart is an error, and nothing is asked once all are loaded.
pub proof fn tables_are_loaded_in_order(
    before: TableLoad,
    after: TableLoad,
    rows: Seq<DataRow>,
    r: Result<LoadAction, Error>,
)
    requires
        taken_in(before, after, rows, r),
        before.wf(),
    ensures
        before.listed is None ==> r is Ok && after.listed is Some && after.listed->Some_0@.len()
            == rows.len() && after.tables@.len() == 0,
        before.listed is Some ==> after.listed == before.listed,
        before.tables@.len() <= after.tables@.len() <= before.tables@.len() + 1,
        after.tables@.len() == before.tables@.len() + 1 ==> {
            &&& before.identity is Some && before.listed is Some
            &&& after.tables@.last().table == before.listed->Some_0@[before.tables@.len() as int]
            &&& after.tables@.last().columns@.len() == rows.len()
            &&& after.tables@.last().identity == before.identity->Some_0
        },
        r is Err <==> before.listed is Some && before.tables@.len() < before.listed->Some_0@.len()
            && before.identity is None && rows.len() == 0,
        r is Err ==> after == before,
        r matches Ok(LoadAction::Finish) ==> after.listed is Some && after.tables@.len()
            == after.listed->Some_0@.len(),
{
}

} // verus!
