//! How far along replication is: tables that are copied, slots, and statements that change the
//! schema. Each registry holds what goes on right now.

use crate::pool::cluster::DatabaseUser;
use crate::pool::config::Address;
use crate::replication::table::Lsn;
use crate::text::{clone_option, owned};
#[allow(unused_imports)]
use crate::text::opt_view;
use crate::time::Instant;
use dashmap::DashMap;
use vstd::prelude::*;

verus! {

/// The concurrent map of the `dashmap` crate.
#[verifier::external_type_specification]
#[verifier::external_body]
#[verifier::reject_recursive_types(K)]
#[verifier::reject_recursive_types(V)]
#[verifier::reject_recursive_types(S)]
pub struct ExDashMap<K, V, S>(dashmap::DashMap<K, V, S>);

/// The tables that a map of copies holds, by schema and name.
pub uninterp spec fn copies_held(map: DashMap<(String, String), TableCopyState>) -> Map<
    (Seq<char>, Seq<char>),
    TableCopyState,
>;

/// The slots that a map holds, by name.
pub uninterp spec fn slots_held(map: DashMap<String, SlotState>) -> Map<Seq<char>, SlotState>;

/// The statements that a map holds, by identifier.
pub uninterp spec fn statements_held(map: DashMap<i64, SchemaStatementTask>) -> Map<
    i64,
    SchemaStatementTask,
>;

/// `DashMap::new`: a new map holds nothing.
#[verifier::external_body]
fn new_copies() -> (r: DashMap<(String, String), TableCopyState>)
    ensures
        copies_held(r).is_empty(),
{
    DashMap::new()
}

/// `DashMap::insert`: the table is held with this state, whether it was held before or not.
#[verifier::external_body]
fn insert_copy(
    map: &mut DashMap<(String, String), TableCopyState>,
    schema: &str,
    table: &str,
    state: TableCopyState,
)
    ensures
        copies_held(*final(map)) == copies_held(*old(map)).insert((schema@, table@), state),
{
    map.insert((schema.to_owned(), table.to_owned()), state);
}

/// `DashMap::get`: the state of the table, if it is held.
#[verifier::external_body]
fn get_copy(map: &DashMap<(String, String), TableCopyState>, schema: &str, table: &str) -> (r:
    Option<TableCopyState>)
    ensures
        match r {
            Some(state) => copies_held(*map).contains_key((schema@, table@)) && state
                == copies_held(*map)[(schema@, table@)],
            None => !copies_held(*map).contains_key((schema@, table@)),
        },
{
    map.get(&(schema.to_owned(), table.to_owned())).map(|entry| entry.value().clone())
}

/// `DashMap::remove`: the table is not held any longer.
#[verifier::external_body]
fn remove_copy(map: &mut DashMap<(String, String), TableCopyState>, schema: &str, table: &str)
    ensures
        copies_held(*final(map)) == copies_held(*old(map)).remove((schema@, table@)),
{
    map.remove(&(schema.to_owned(), table.to_owned()));
}

/// `DashMap::new`: a new map holds nothing.
#[verifier::external_body]
fn new_slots() -> (r: DashMap<String, SlotState>)
    ensures
        slots_held(r).is_empty(),
{
    DashMap::new()
}

/// `DashMap::insert`: the slot is held with this state, whether it was held before or not.
#[verifier::external_body]
fn insert_slot(map: &mut DashMap<String, SlotState>, name: &str, state: SlotState)
    ensures
        slots_held(*final(map)) == slots_held(*old(map)).insert(name@, state),
{
    map.insert(name.to_owned(), state);
}

/// `DashMap::get`: the state of the slot, if it is held.
#[verifier::external_body]
fn get_slot(map: &DashMap<String, SlotState>, name: &str) -> (r: Option<SlotState>)
    ensures
        match r {
            Some(state) => slots_held(*map).contains_key(name@) && state
                == slots_held(*map)[name@],
            None => !slots_held(*map).contains_key(name@),
        },
{
    map.get(name).map(|entry| entry.value().clone())
}

/// `DashMap::remove`: the slot is not held any longer.
#[verifier::external_body]
fn remove_slot(map: &mut DashMap<String, SlotState>, name: &str)
    ensures
        slots_held(*final(map)) == slots_held(*old(map)).remove(name@),
{
    map.remove(name);
}

/// `DashMap::new`: a new map holds nothing.
#[verifier::external_body]
fn new_statements() -> (r: DashMap<i64, SchemaStatementTask>)
    ensures
        statements_held(r).is_empty(),
{
    DashMap::new()
}

/// `DashMap::insert`: the statement is held, whether one with its identifier was held before or
/// not.
#[verifier::external_body]
fn insert_statement(map: &mut DashMap<i64, SchemaStatementTask>, id: i64, task: SchemaStatementTask)
    ensures
        statements_held(*final(map)) == statements_held(*old(map)).insert(id, task),
{
    map.insert(id, task);
}

/// `DashMap::get`: the statement, if it is held.
#[verifier::external_body]
fn get_statement(map: &DashMap<i64, SchemaStatementTask>, id: i64) -> (r: Option<
    SchemaStatementTask,
>)
    ensures
        match r {
            Some(task) => statements_held(*map).contains_key(id) && task
                == statements_held(*map)[id],
            None => !statements_held(*map).contains_key(id),
        },
{
    map.get(&id).map(|entry| entry.value().clone())
}

/// `DashMap::remove`: the statement is not held any longer.
#[verifier::external_body]
fn remove_statement(map: &mut DashMap<i64, SchemaStatementTask>, id: i64)
    ensures
        statements_held(*final(map)) == statements_held(*old(map)).remove(id),
{
    map.remove(&id);
}

/// How far along the copy of a table is.
#[derive(Debug)]
pub struct TableCopyState {
    /// The statement.
    pub sql: String,
    /// Rows that were copied.
    pub rows: usize,
    /// Bytes that were copied.
    pub bytes: usize,
    /// Bytes that were copied per second.
    pub bytes_per_sec: usize,
    /// When the copy began.
    pub last_update: Instant,
}

impl Clone for TableCopyState {
    fn clone(&self) -> (r: Self)
        ensures
            r == *self,
    {
        TableCopyState {
            sql: self.sql.clone(),
            rows: self.rows,
            bytes: self.bytes,
            bytes_per_sec: self.bytes_per_sec,
            last_update: self.last_update,
        }
    }
}

/// Whole seconds from `earlier` to `now`, nothing if `earlier` lies ahead.
pub open spec fn seconds_since(now: Instant, earlier: Instant) -> int {
    now.since(earlier) as int / 1_000_000_000
}

/// The sum, or the largest number that can be counted to.
pub open spec fn counted(total: usize, more: usize) -> int {
    if total + more > usize::MAX {
        usize::MAX as int
    } else {
        total + more
    }
}

/// `after` is `before` once more was copied. The rate is taken over whole seconds, once there is
/// one.
pub open spec fn progressed(
    before: TableCopyState,
    after: TableCopyState,
    bytes: usize,
    rows: usize,
    now: Instant,
) -> bool {
    let elapsed = seconds_since(now, before.last_update);
    &&& after == (TableCopyState {
        bytes: after.bytes,
        rows: after.rows,
        bytes_per_sec: after.bytes_per_sec,
        ..before
    })
    &&& after.bytes == counted(before.bytes, bytes)
    &&& after.rows == counted(before.rows, rows)
    &&& after.bytes_per_sec == if elapsed > 0 {
        after.bytes as int / elapsed
    } else {
        before.bytes_per_sec as int
    }
}

/// Tables that are copied.
#[derive(Debug)]
pub struct TableCopies {
    /// The tables, by schema and name.
    copies: DashMap<(String, String), TableCopyState>,
}

impl TableCopies {
    /// The tables with their states, by schema and name.
    pub closed spec fn view(&self) -> Map<(Seq<char>, Seq<char>), TableCopyState> {
        copies_held(self.copies)
    }

    /// No table is copied.
    pub fn new() -> (r: Self)
        ensures
            r@.is_empty(),
    {
        TableCopies { copies: new_copies() }
    }

    /// How far along the copy of a table is, if it goes on.
    pub fn get(&self, schema: &str, table: &str) -> (r: Option<TableCopyState>)
        ensures
            match r {
                Some(state) => self@.contains_key((schema@, table@)) && state
                    == self@[(schema@, table@)],
                None => !self@.contains_key((schema@, table@)),
            },
    {
        get_copy(&self.copies, schema, table)
    }
}

/// The copy of a table. It is in the registry until it is finished.
#[derive(Debug)]
pub struct TableCopy {
    /// Schema of the table.
    pub schema: String,
    /// Name of the table.
    pub table: String,
}

impl TableCopy {
    /// What tells the copy from other ones.
    pub open spec fn key(&self) -> (Seq<char>, Seq<char>) {
        (self.schema@, self.table@)
    }

    /// The copy of a table begins.
    pub fn new(copies: &mut TableCopies, schema: &str, table: &str, now: Instant) -> (r: Self)
        ensures
            r.key() == (schema@, table@),
            ({
                let state = final(copies)@[(schema@, table@)];
                &&& final(copies)@ == old(copies)@.insert((schema@, table@), state)
                &&& state.sql@.len() == 0
                &&& state.rows == 0
                &&& state.bytes == 0
                &&& state.bytes_per_sec == 0
                &&& state.last_update == now
            }),
    {
        let state = TableCopyState {
            sql: String::new(),
            rows: 0,
            bytes: 0,
            bytes_per_sec: 0,
            last_update: now,
        };
        insert_copy(&mut copies.copies, schema, table, state);
        TableCopy { schema: owned(schema), table: owned(table) }
    }

    /// More was copied. The new state comes back, to be told to whoever wants to know. Nothing
    /// happens to a copy that is finished.
    pub fn update_progress(
        &self,
        copies: &mut TableCopies,
        bytes: usize,
        rows: usize,
        now: Instant,
    ) -> (r: Option<TableCopyState>)
        ensures
            match r {
                Some(state) => {
                    &&& old(copies)@.contains_key(self.key())
                    &&& progressed(old(copies)@[self.key()], state, bytes, rows, now)
                    &&& final(copies)@ == old(copies)@.insert(self.key(), state)
                },
                None => !old(copies)@.contains_key(self.key()) && final(copies)@ == old(copies)@,
            },
    {
        match get_copy(&copies.copies, self.schema.as_str(), self.table.as_str()) {
            Some(mut state) => {
                state.bytes = state.bytes.saturating_add(bytes);
                state.rows = state.rows.saturating_add(rows);
                let elapsed: u128 = now.duration_since(state.last_update).nanos / 1_000_000_000;
                if elapsed > 0 {
                    let rate: u128 = state.bytes as u128 / elapsed;
                    assert(rate <= state.bytes) by (nonlinear_arith)
                        requires
                            elapsed > 0,
                            rate == (state.bytes as u128) / elapsed,
                    ;
                    state.bytes_per_sec = rate as usize;
                }
                insert_copy(
                    &mut copies.copies,
                    self.schema.as_str(),
                    self.table.as_str(),
                    state.clone(),
                );
                Some(state)
            },
            None => None,
        }
    }

    /// The statement that copies the table is known.
    pub fn update_sql(&self, copies: &mut TableCopies, sql: &str)
        ensures
            if old(copies)@.contains_key(self.key()) {
                let state = final(copies)@[self.key()];
                &&& final(copies)@ == old(copies)@.insert(self.key(), state)
                &&& state == (TableCopyState { sql: state.sql, ..old(copies)@[self.key()] })
                &&& state.sql@ == sql@
            } else {
                final(copies)@ == old(copies)@
            },
    {
        match get_copy(&copies.copies, self.schema.as_str(), self.table.as_str()) {
            Some(mut state) => {
                state.sql = owned(sql);
                insert_copy(&mut copies.copies, self.schema.as_str(), self.table.as_str(), state);
            },
            None => {},
        }
    }

    /// The copy begins anew after it failed. What was copied before does not count. The new state
    /// comes back.
    pub fn reset(&self, copies: &mut TableCopies, now: Instant) -> (r: Option<TableCopyState>)
        ensures
            match r {
                Some(state) => {
                    &&& old(copies)@.contains_key(self.key())
                    &&& state == started_over(old(copies)@[self.key()], now)
                    &&& final(copies)@ == old(copies)@.insert(self.key(), state)
                },
                None => !old(copies)@.contains_key(self.key()) && final(copies)@ == old(copies)@,
            },
    {
        match get_copy(&copies.copies, self.schema.as_str(), self.table.as_str()) {
            Some(mut state) => {
                state.bytes = 0;
                state.rows = 0;
                state.bytes_per_sec = 0;
                state.last_update = now;
                insert_copy(
                    &mut copies.copies,
                    self.schema.as_str(),
                    self.table.as_str(),
                    state.clone(),
                );
                Some(state)
            },
            None => None,
        }
    }

    /// The copy is over.
    pub fn finish(self, copies: &mut TableCopies)
        ensures
            final(copies)@ == old(copies)@.remove(self.key()),
    {
        remove_copy(&mut copies.copies, self.schema.as_str(), self.table.as_str());
    }
}

/// The state of a copy that begins anew.
pub open spec fn started_over(state: TableCopyState, now: Instant) -> TableCopyState {
    TableCopyState { bytes: 0, rows: 0, bytes_per_sec: 0, last_update: now, ..state }
}

/// The server of a replication slot.
#[derive(Debug)]
pub struct SlotAddress {
    /// Address or name of the machine.
    pub host: String,
    /// Port.
    pub port: u16,
    /// Database on the server.
    pub database_name: String,
    /// User that is logged in.
    pub user: String,
}

impl Clone for SlotAddress {
    fn clone(&self) -> (r: Self)
        ensures
            r == *self,
    {
        SlotAddress {
            host: self.host.clone(),
            port: self.port,
            database_name: self.database_name.clone(),
            user: self.user.clone(),
        }
    }
}

/// A replication slot.
#[derive(Debug)]
pub struct SlotState {
    /// Its name.
    pub name: String,
    /// Changes up to here were carried over.
    pub lsn: Lsn,
    /// The slot is for copying a table, and is gone when that is done.
    pub copy_data: bool,
    /// Bytes that the slot is behind.
    pub lag: i64,
    /// The server.
    pub address: SlotAddress,
    /// When changes were last carried over.
    pub last_transaction: Option<Instant>,
}

impl Clone for SlotState {
    fn clone(&self) -> (r: Self)
        ensures
            r == *self,
    {
        SlotState {
            name: self.name.clone(),
            lsn: self.lsn,
            copy_data: self.copy_data,
            lag: self.lag,
            address: self.address.clone(),
            last_transaction: self.last_transaction,
        }
    }
}

/// Replication slots.
#[derive(Debug)]
pub struct ReplicationSlots {
    /// The slots, by name.
    slots: DashMap<String, SlotState>,
}

impl ReplicationSlots {
    /// The slots with their states, by name.
    pub closed spec fn view(&self) -> Map<Seq<char>, SlotState> {
        slots_held(self.slots)
    }

    /// There is no slot.
    pub fn new() -> (r: Self)
        ensures
            r@.is_empty(),
    {
        ReplicationSlots { slots: new_slots() }
    }

    /// The state of a slot, if there is such a slot.
    pub fn get(&self, name: &str) -> (r: Option<SlotState>)
        ensures
            match r {
                Some(state) => self@.contains_key(name@) && state == self@[name@],
                None => !self@.contains_key(name@),
            },
    {
        get_slot(&self.slots, name)
    }
}

/// A replication slot.
#[derive(Debug)]
pub struct ReplicationSlot {
    /// The slot as it was created.
    pub inner: SlotState,
}

impl std::ops::Deref for ReplicationSlot {
    type Target = SlotState;

    fn deref(&self) -> (r: &SlotState)
        ensures
            *r == self.inner,
    {
        &self.inner
    }
}

impl std::ops::DerefMut for ReplicationSlot {
    fn deref_mut(&mut self) -> (r: &mut SlotState)
        ensures
            *r == old(self).inner,
            *final(self) == (ReplicationSlot { inner: *final(r), ..*old(self) }),
    {
        &mut self.inner
    }
}

impl ReplicationSlot {
    /// A slot was created.
    pub fn new(
        slots: &mut ReplicationSlots,
        name: &str,
        lsn: &Lsn,
        copy_data: bool,
        address: &Address,
    ) -> (r: Self)
        ensures
            r.inner.name@ == name@,
            r.inner.lsn == *lsn,
            r.inner.copy_data == copy_data,
            r.inner.lag == 0,
            r.inner.address == (SlotAddress {
                host: address.host,
                port: address.port,
                database_name: address.database_name,
                user: address.user,
            }),
            r.inner.last_transaction is None,
            final(slots)@ == old(slots)@.insert(name@, r.inner),
    {
        let inner = SlotState {
            name: owned(name),
            lsn: *lsn,
            copy_data,
            lag: 0,
            address: SlotAddress {
                host: address.host.clone(),
                port: address.port,
                database_name: address.database_name.clone(),
                user: address.user.clone(),
            },
            last_transaction: None,
        };
        insert_slot(&mut slots.slots, name, inner.clone());
        ReplicationSlot { inner }
    }

    /// Changes up to here were carried over. The new state comes back. Nothing happens to a slot
    /// that is gone.
    pub fn update_lsn(&self, slots: &mut ReplicationSlots, lsn: &Lsn, now: Instant) -> (r: Option<
        SlotState,
    >)
        ensures
            match r {
                Some(state) => {
                    &&& old(slots)@.contains_key(self.inner.name@)
                    &&& state == carried_to(old(slots)@[self.inner.name@], *lsn, now)
                    &&& final(slots)@ == old(slots)@.insert(self.inner.name@, state)
                },
                None => !old(slots)@.contains_key(self.inner.name@) && final(slots)@ == old(slots)@,
            },
    {
        match get_slot(&slots.slots, self.inner.name.as_str()) {
            Some(mut state) => {
                state.lsn = *lsn;
                state.last_transaction = Some(now);
                insert_slot(&mut slots.slots, self.inner.name.as_str(), state.clone());
                Some(state)
            },
            None => None,
        }
    }

    /// The slot is this many bytes behind. The new state comes back. Nothing happens to a slot that
    /// is gone.
    pub fn update_lag(&self, slots: &mut ReplicationSlots, lag: i64) -> (r: Option<SlotState>)
        ensures
            match r {
                Some(state) => {
                    &&& old(slots)@.contains_key(self.inner.name@)
                    &&& state == behind_by(old(slots)@[self.inner.name@], lag)
                    &&& final(slots)@ == old(slots)@.insert(self.inner.name@, state)
                },
                None => !old(slots)@.contains_key(self.inner.name@) && final(slots)@ == old(slots)@,
            },
    {
        match get_slot(&slots.slots, self.inner.name.as_str()) {
            Some(mut state) => {
                state.lag = lag;
                insert_slot(&mut slots.slots, self.inner.name.as_str(), state.clone());
                Some(state)
            },
            None => None,
        }
    }

    /// The slot was dropped.
    pub fn dropped(&self, slots: &mut ReplicationSlots)
        ensures
            final(slots)@ == old(slots)@.remove(self.inner.name@),
    {
        remove_slot(&mut slots.slots, self.inner.name.as_str());
    }

    /// The connection of the slot is closed. A slot for copying a table is gone with it; other
    /// slots stay until they are dropped.
    pub fn finish(self, slots: &mut ReplicationSlots)
        ensures
            final(slots)@ == without_slot(old(slots)@, self.inner),
    {
        if self.inner.copy_data {
            self.dropped(slots);
        }
    }
}

/// The slot once changes up to here were carried over.
pub open spec fn carried_to(slot: SlotState, lsn: Lsn, now: Instant) -> SlotState {
    SlotState { lsn, last_transaction: Some(now), ..slot }
}

/// The slot once it is known how many bytes it is behind.
pub open spec fn behind_by(slot: SlotState, lag: i64) -> SlotState {
    SlotState { lag, ..slot }
}

/// The statement once it was begun.
pub open spec fn begun(task: SchemaStatementTask, now: Instant) -> SchemaStatementTask {
    SchemaStatementTask {
        running: true,
        statement: SchemaStatementInfo { started_at: Some(now), ..task.statement },
        ..task
    }
}

/// The statement once it failed with this text.
pub open spec fn failed_with(
    before: SchemaStatementTask,
    after: SchemaStatementTask,
    err: Seq<char>,
) -> bool {
    &&& after == (SchemaStatementTask { error: after.error, done: true, ..before })
    &&& opt_view(after.error) == Some(err)
}

/// The slots once the connection of one of them was closed.
pub open spec fn without_slot(slots: Map<Seq<char>, SlotState>, slot: SlotState) -> Map<
    Seq<char>,
    SlotState,
> {
    if slot.copy_data {
        slots.remove(slot.name@)
    } else {
        slots
    }
}

/// Kind of a statement that changes the schema.
#[derive(Clone, Copy, Debug, PartialEq, Eq, Structural)]
pub enum StatementKind {
    /// It creates a table.
    Table,
    /// It creates an index.
    Index,
    /// It does something else.
    Statement,
}

/// When a statement is executed.
#[derive(Clone, Copy, Debug, PartialEq, Eq, Structural)]
pub enum SyncState {
    /// Before the rows are copied.
    PreData,
    /// After the rows are copied.
    PostData,
    /// When traffic moves over.
    Cutover,
}

/// A table that a statement is about.
#[derive(Debug)]
pub struct StatementTable {
    /// Its schema, if the statement names it.
    pub schema: Option<String>,
    /// Its name.
    pub name: String,
}

/// A statement of a schema dump.
#[derive(Debug)]
pub enum Statement {
    /// It creates an index.
    Index {
        /// The table that the index is on.
        table: StatementTable,
        /// The statement.
        sql: String,
    },
    /// It creates a table.
    Table {
        /// The table.
        table: StatementTable,
        /// The statement.
        sql: String,
    },
    /// It does something else.
    Other {
        /// The statement.
        sql: String,
    },
    /// It makes a column the owner of a sequence.
    SequenceOwner {
        /// The statement.
        sql: String,
    },
    /// It moves a sequence behind the values in a column.
    SequenceSetMax {
        /// The statement.
        sql: String,
    },
}

impl Statement {
    /// The statement.
    pub open spec fn text(&self) -> Seq<char> {
        match self {
            Statement::Index { table: _, sql } => sql@,
            Statement::Table { table: _, sql } => sql@,
            Statement::Other { sql } => sql@,
            Statement::SequenceOwner { sql } => sql@,
            Statement::SequenceSetMax { sql } => sql@,
        }
    }

    /// Its kind.
    pub open spec fn kind(&self) -> StatementKind {
        match self {
            Statement::Index { .. } => StatementKind::Index,
            Statement::Table { .. } => StatementKind::Table,
            _ => StatementKind::Statement,
        }
    }

    /// The table that it is about, if it creates one or an index on one.
    pub open spec fn about(&self) -> Option<StatementTable> {
        match self {
            Statement::Index { table, sql: _ } => Some(*table),
            Statement::Table { table, sql: _ } => Some(*table),
            _ => None,
        }
    }
}

/// What is known of a statement that changes the schema.
#[derive(Debug)]
pub struct SchemaStatementInfo {
    /// What tells it from other ones.
    pub id: i64,
    /// Whose and on which database.
    pub user: DatabaseUser,
    /// The shard that it is executed on.
    pub shard: usize,
    /// The statement.
    pub sql: String,
    /// Its kind.
    pub kind: StatementKind,
    /// When it is executed.
    pub sync_state: SyncState,
    /// When it was begun.
    pub started_at: Option<Instant>,
    /// Schema of the table that it is about.
    pub table_schema: Option<String>,
    /// Name of the table that it is about.
    pub table_name: Option<String>,
}

/// A statement that changes the schema, and what came of it.
#[derive(Debug)]
pub struct SchemaStatementTask {
    /// The statement.
    pub statement: SchemaStatementInfo,
    /// It was begun.
    pub running: bool,
    /// It is over.
    pub done: bool,
    /// What went wrong.
    pub error: Option<String>,
}

impl Clone for SchemaStatementTask {
    fn clone(&self) -> (r: Self)
        ensures
            r == *self,
    {
        SchemaStatementTask {
            statement: SchemaStatementInfo {
                id: self.statement.id,
                user: self.statement.user.clone(),
                shard: self.statement.shard,
                sql: self.statement.sql.clone(),
                kind: self.statement.kind,
                sync_state: self.statement.sync_state,
                started_at: self.statement.started_at,
                table_schema: clone_option(&self.statement.table_schema),
                table_name: clone_option(&self.statement.table_name),
            },
            running: self.running,
            done: self.done,
            error: clone_option(&self.error),
        }
    }
}

/// Statements that change the schema.
#[derive(Debug)]
pub struct SchemaStatements {
    /// The statements, by identifier.
    stmts: DashMap<i64, SchemaStatementTask>,
    /// The identifier of the next one.
    id: i64,
}

/// The identifier after this one. After the largest one comes the smallest.
pub open spec fn following(id: i64) -> i64 {
    if id == i64::MAX {
        i64::MIN
    } else {
        (id + 1) as i64
    }
}

impl SchemaStatements {
    /// The statements, by identifier.
    pub closed spec fn view(&self) -> Map<i64, SchemaStatementTask> {
        statements_held(self.stmts)
    }

    /// The identifier of the next one.
    pub closed spec fn upcoming(&self) -> i64 {
        self.id
    }

    /// There is no statement.
    pub fn new() -> (r: Self)
        ensures
            r@.is_empty(),
            r.upcoming() == 0,
    {
        SchemaStatements { stmts: new_statements(), id: 0 }
    }

    /// The statement with this identifier, if there is one.
    pub fn get(&self, id: i64) -> (r: Option<SchemaStatementTask>)
        ensures
            match r {
                Some(task) => self@.contains_key(id) && task == self@[id],
                None => !self@.contains_key(id),
            },
    {
        get_statement(&self.stmts, id)
    }

    /// The next identifier.
    pub fn next_id(&mut self) -> (r: i64)
        ensures
            r == old(self).upcoming(),
            final(self).upcoming() == following(old(self).upcoming()),
            final(self)@ == old(self)@,
    {
        let id = self.id;
        if id == i64::MAX {
            self.id = i64::MIN;
        } else {
            self.id = id + 1;
        }
        id
    }
}

/// A statement that changes the schema. It is in the registry until it is finished.
#[derive(Debug)]
pub struct SchemaStatement {
    /// The statement, and what came of it.
    pub task: SchemaStatementTask,
}

/// The task is for this statement, which has not been begun.
pub open spec fn task_for(
    task: SchemaStatementTask,
    user: DatabaseUser,
    stmt: Statement,
    shard: usize,
    sync_state: SyncState,
    id: i64,
) -> bool {
    &&& task.statement.id == id
    &&& task.statement.user == user
    &&& task.statement.shard == shard
    &&& task.statement.sql@ == stmt.text()
    &&& task.statement.kind == stmt.kind()
    &&& task.statement.sync_state == sync_state
    &&& task.statement.started_at is None
    &&& task.statement.table_schema == match stmt.about() {
        Some(table) => table.schema,
        None => None,
    }
    &&& task.statement.table_name == match stmt.about() {
        Some(table) => Some(table.name),
        None => None,
    }
    &&& !task.running
    &&& !task.done
    &&& task.error is None
}

impl std::ops::Deref for SchemaStatement {
    type Target = SchemaStatementInfo;

    fn deref(&self) -> (r: &SchemaStatementInfo)
        ensures
            *r == self.task.statement,
    {
        &self.task.statement
    }
}

impl SchemaStatement {
    /// A statement that will be executed on a shard.
    pub fn new(
        statements: &mut SchemaStatements,
        user: &DatabaseUser,
        stmt: &Statement,
        shard: usize,
        sync_state: SyncState,
    ) -> (r: Self)
        ensures
            task_for(r.task, *user, *stmt, shard, sync_state, old(statements).upcoming()),
            final(statements).upcoming() == following(old(statements).upcoming()),
            final(statements)@ == old(statements)@.insert(old(statements).upcoming(), r.task),
    {
        let id = statements.next_id();
        let (sql, kind, table_schema, table_name) = match stmt {
            Statement::Index { table, sql } => (
                sql.clone(),
                StatementKind::Index,
                clone_option(&table.schema),
                Some(table.name.clone()),
            ),
            Statement::Table { table, sql } => (
                sql.clone(),
                StatementKind::Table,
                clone_option(&table.schema),
                Some(table.name.clone()),
            ),
            Statement::Other { sql } => (sql.clone(), StatementKind::Statement, None, None),
            Statement::SequenceOwner { sql } => (sql.clone(), StatementKind::Statement, None, None),
            Statement::SequenceSetMax { sql } => (
                sql.clone(),
                StatementKind::Statement,
                None,
                None,
            ),
        };
        let task = SchemaStatementTask {
            statement: SchemaStatementInfo {
                id,
                user: user.clone(),
                shard,
                sql,
                kind,
                sync_state,
                started_at: None,
                table_schema,
                table_name,
            },
            running: false,
            done: false,
            error: None,
        };
        insert_statement(&mut statements.stmts, id, task.clone());
        SchemaStatement { task }
    }

    /// The statement was begun. Nothing happens to one that is not in the registry.
    pub fn running(&mut self, statements: &mut SchemaStatements, now: Instant)
        ensures
            ({
                let id = old(self).task.statement.id;
                if old(statements)@.contains_key(id) {
                    let before = old(statements)@[id];
                    &&& final(self).task == begun(before, now)
                    &&& final(statements)@ == old(statements)@.insert(id, final(self).task)
                } else {
                    *final(self) == *old(self) && final(statements)@ == old(statements)@
                }
            }),
            final(statements).upcoming() == old(statements).upcoming(),
    {
        let id = self.task.statement.id;
        match get_statement(&statements.stmts, id) {
            Some(mut entry) => {
                entry.running = true;
                entry.statement.started_at = Some(now);
                insert_statement(&mut statements.stmts, id, entry.clone());
                self.task = entry;
            },
            None => {},
        }
    }

    /// The statement failed. Nothing happens to one that is not in the registry.
    pub fn error(&mut self, statements: &mut SchemaStatements, err: &str)
        ensures
            ({
                let id = old(self).task.statement.id;
                if old(statements)@.contains_key(id) {
                    let before = old(statements)@[id];
                    &&& failed_with(before, final(self).task, err@)
                    &&& final(statements)@ == old(statements)@.insert(id, final(self).task)
                } else {
                    *final(self) == *old(self) && final(statements)@ == old(statements)@
                }
            }),
            final(statements).upcoming() == old(statements).upcoming(),
    {
        let id = self.task.statement.id;
        match get_statement(&statements.stmts, id) {
            Some(mut entry) => {
                entry.error = Some(owned(err));
                entry.done = true;
                insert_statement(&mut statements.stmts, id, entry.clone());
                self.task = entry;
            },
            None => {},
        }
    }

    /// The statement is over. Its last state comes back.
    pub fn finish(self, statements: &mut SchemaStatements) -> (r: SchemaStatementTask)
        ensures
            final(statements)@ == old(statements)@.remove(self.task.statement.id),
            final(statements).upcoming() == old(statements).upcoming(),
            r == (SchemaStatementTask { done: true, ..self.task }),
    {
        let mut task = self.task;
        remove_statement(&mut statements.stmts, task.statement.id);
        task.done = true;
        task
    }
}

/// A copy that is over leaves nothing behind: the registry is what it was before the copy began.
pub proof fn finished_copies_leave_nothing(
    before: Map<(Seq<char>, Seq<char>), TableCopyState>,
    key: (Seq<char>, Seq<char>),
    began: TableCopyState,
    later: TableCopyState,
)
    requires
        !before.contains_key(key),
    ensures
        before.insert(key, began).insert(key, later).remove(key) == before,
{
    assert(before.insert(key, began).insert(key, later).remove(key) =~= before);
}

/// What a failed attempt copied does not count: after the copy began anew, totals and rate are those
/// of the new attempt.
pub proof fn failed_attempts_do_not_count(
    failed: TableCopyState,
    began: Instant,
    after: TableCopyState,
    bytes: usize,
    rows: usize,
    now: Instant,
)
    requires
        progressed(started_over(failed, began), after, bytes, rows, now),
    ensures
        after.bytes == bytes,
        after.rows == rows,
        after.bytes_per_sec == if seconds_since(now, began) > 0 {
            bytes as int / seconds_since(now, began)
        } else {
            0
        },
{
}

/// Two statements in a row have different identifiers.
pub proof fn identifiers_differ(id: i64)
    ensures
        following(id) != id,
{
}

} // verus!
