//! Queries that tell what a publication holds.

use crate::numbers::{parse_i32, parse_u32};
#[allow(unused_imports)]
use crate::numbers::{is_digits, number_value, numbers_round_trip};
use crate::replication::error::Error;
use crate::text::{concat3, decimal_text, double_char, join, owned, same, substitute};
#[allow(unused_imports)]
use crate::text::{decimal, doubled, joined, substituted, views};
use vstd::prelude::*;
use vstd::string::*;

verus! {

/// The text as a literal: in single quotes, which are doubled inside.
pub open spec fn literal(s: Seq<char>) -> Seq<char> {
    "'"@ + doubled(s, '\'') + "'"@
}

/// The text as a literal: in single quotes, which are doubled inside.
pub fn quote_literal(s: &str) -> (r: String)
    ensures
        r@ == literal(s@),
{
    concat3("'", double_char(s, '\'').as_str(), "'")
}

/// Tables in a publication.
pub const TABLES: &'static str = "SELECT DISTINCT
  n.nspname,
  c.relname,
  gpt.attrs,
  COALESCE(pn.nspname::text, '') AS parent_schema,
  COALESCE(p.relname::text, '')  AS parent_table
FROM pg_class c
JOIN pg_namespace n ON n.oid = c.relnamespace
JOIN (
  SELECT (pg_get_publication_tables(VARIADIC array_agg(pubname::text))).*
  FROM pg_publication
  WHERE pubname IN ($1)
) AS gpt
  ON gpt.relid = c.oid
LEFT JOIN pg_inherits i     ON i.inhrelid = c.oid           -- only present if c is a child partition
LEFT JOIN pg_class    p     ON p.oid = i.inhparent          -- immediate parent partitioned table
LEFT JOIN pg_namespace pn   ON pn.oid = p.relnamespace
ORDER BY n.nspname, c.relname;";

/// Replica identity of a table: a unique index, or all of its columns.
pub const REPLICA_IDENTIFY: &'static str = "SELECT
    c.oid,
    c.relreplident,
    c.relkind
FROM
    pg_catalog.pg_class c
INNER JOIN pg_catalog.pg_namespace n
ON (c.relnamespace = n.oid) WHERE n.nspname = $1 AND c.relname = $2";

/// Columns of a table; those of its replica identity are marked.
pub const COLUMNS: &'static str = "SELECT
    a.attnum,
    a.attname,
    a.atttypid,
    a.attnum = ANY(i.indkey)
FROM
    pg_catalog.pg_attribute a
    LEFT JOIN pg_catalog.pg_index i
    ON (i.indexrelid = pg_get_replica_identity_index($1))
    WHERE a.attnum > 0::pg_catalog.int2 AND NOT a.attisdropped AND a.attgenerated = '' AND a.attrelid = $2 ORDER BY a.attnum";

/// Those among some tables that have a unique index on which no two rows can be alike: it is
/// complete, it is over all rows and over columns only, and null values are ruled out or taken as
/// equal.
pub const UNIQUE_INDEX: &'static str = "SELECT DISTINCT n.nspname, c.relname
FROM pg_catalog.pg_index i
JOIN pg_catalog.pg_class c ON c.oid = i.indrelid
JOIN pg_catalog.pg_namespace n ON n.oid = c.relnamespace
WHERE (n.nspname, c.relname) IN ($1)
  AND i.indisunique
  AND i.indisvalid
  AND i.indisready
  AND i.indislive
  AND i.indpred IS NULL
  AND i.indexprs IS NULL
  AND (
    i.indnullsnotdistinct
    OR NOT EXISTS (
      SELECT 1
      FROM unnest(i.indkey) AS k(attnum)
      JOIN pg_catalog.pg_attribute a
        ON a.attrelid = i.indrelid AND a.attnum = k.attnum
      WHERE NOT a.attnotnull
    )
  )";

/// Number of an object in a database.
#[derive(Clone, Copy, Debug, PartialEq, Eq, Structural)]
pub struct Oid(pub u32);

impl Oid {
    /// The number in decimal notation.
    pub fn to_string(&self) -> (r: String)
        ensures
            r@ == decimal(self.0 as nat),
    {
        decimal_text(self.0 as u64)
    }
}

/// A row that a server sent, in text format. A column is empty if its value is null.
#[derive(Debug)]
pub struct DataRow {
    /// The columns.
    pub columns: Vec<Option<String>>,
}

/// The text in a column of a row, if there is such a column and it is not null.
pub open spec fn text_at(row: DataRow, i: int) -> Option<Seq<char>> {
    if i < row.columns@.len() {
        match row.columns@[i] {
            Some(s) => Some(s@),
            None => None,
        }
    } else {
        None
    }
}

/// The text, or an empty one.
pub open spec fn text_or_empty(s: Option<Seq<char>>) -> Seq<char> {
    match s {
        Some(s) => s,
        None => Seq::empty(),
    }
}

/// The object number that the text stands for, or 0.
pub open spec fn oid_or_zero(s: Option<Seq<char>>) -> u32 {
    match s {
        Some(s) => match number_value(s) {
            Some(n) => if s[0] != '-' && n <= u32::MAX {
                n as u32
            } else {
                0
            },
            None => 0,
        },
        None => 0,
    }
}

/// The number that the text stands for, or 0.
pub open spec fn number_or_zero(s: Option<Seq<char>>) -> i32 {
    match s {
        Some(s) => match number_value(s) {
            Some(n) => if i32::MIN <= n <= i32::MAX {
                n as i32
            } else {
                0
            },
            None => 0,
        },
        None => 0,
    }
}

/// The text says yes.
pub open spec fn says_yes(s: Option<Seq<char>>) -> bool {
    s == Some("t"@) || s == Some("true"@)
}

impl DataRow {
    /// A row without columns.
    pub fn new() -> (r: Self)
        ensures
            r.columns@.len() == 0,
    {
        DataRow { columns: Vec::new() }
    }

    /// Add a column.
    pub fn add(&mut self, text: String)
        ensures
            final(self).columns@ == old(self).columns@.push(Some(text)),
    {
        self.columns.push(Some(text));
    }

    /// The text in a column, if there is such a column and it is not null.
    pub fn get(&self, i: usize) -> (r: Option<&str>)
        ensures
            match r {
                Some(s) => text_at(*self, i as int) == Some(s@),
                None => text_at(*self, i as int) is None,
            },
    {
        if i < self.columns.len() {
            match &self.columns[i] {
                Some(s) => Some(s.as_str()),
                None => None,
            }
        } else {
            None
        }
    }

    fn text(&self, i: usize) -> (r: String)
        ensures
            r@ == text_or_empty(text_at(*self, i as int)),
    {
        match self.get(i) {
            Some(s) => owned(s),
            None => String::new(),
        }
    }

    fn oid(&self, i: usize) -> (r: Oid)
        ensures
            r.0 == oid_or_zero(text_at(*self, i as int)),
    {
        match self.get(i) {
            Some(s) => Oid(parse_u32(s).unwrap_or(0)),
            None => Oid(0),
        }
    }

    fn number(&self, i: usize) -> (r: i32)
        ensures
            r == number_or_zero(text_at(*self, i as int)),
    {
        match self.get(i) {
            Some(s) => parse_i32(s).unwrap_or(0),
            None => 0,
        }
    }

    fn flag(&self, i: usize) -> (r: bool)
        ensures
            r == says_yes(text_at(*self, i as int)),
    {
        match self.get(i) {
            Some(s) => same(s, "t") || same(s, "true"),
            None => false,
        }
    }
}

/// Table in a publication.
#[derive(Debug)]
pub struct PublicationTable {
    /// Its schema.
    pub schema: String,
    /// Its name.
    pub name: String,
    /// Its columns that are published.
    pub attributes: String,
    /// Schema of the table that it is a partition of, if any.
    pub parent_schema: String,
    /// Name of the table that it is a partition of, if any.
    pub parent_name: String,
}

impl Clone for PublicationTable {
    fn clone(&self) -> (r: Self)
        ensures
            r == *self,
    {
        PublicationTable {
            schema: self.schema.clone(),
            name: self.name.clone(),
            attributes: self.attributes.clone(),
            parent_schema: self.parent_schema.clone(),
            parent_name: self.parent_name.clone(),
        }
    }
}

impl Default for PublicationTable {
    fn default() -> (r: Self)
        ensures
            r.schema@.len() == 0,
            r.name@.len() == 0,
            r.attributes@.len() == 0,
            r.parent_schema@.len() == 0,
            r.parent_name@.len() == 0,
    {
        PublicationTable {
            schema: String::new(),
            name: String::new(),
            attributes: String::new(),
            parent_schema: String::new(),
            parent_name: String::new(),
        }
    }
}

/// The row tells of this table.
pub open spec fn table_of(row: DataRow, t: PublicationTable) -> bool {
    &&& t.schema@ == text_or_empty(text_at(row, 0))
    &&& t.name@ == text_or_empty(text_at(row, 1))
    &&& t.attributes@ == text_or_empty(text_at(row, 2))
    &&& t.parent_schema@ == text_or_empty(text_at(row, 3))
    &&& t.parent_name@ == text_or_empty(text_at(row, 4))
}

impl PublicationTable {
    /// The query for the tables of a publication.
    pub fn load(publication: &str) -> (r: String)
        ensures
            r@ == substituted(TABLES@, "$1"@, literal(publication@)),
    {
        proof {
            reveal_strlit("$1");
        }
        substitute(TABLES, "$1", quote_literal(publication).as_str())
    }

    /// The table that a row tells of.
    pub fn from_row(row: &DataRow) -> (r: Self)
        ensures
            table_of(*row, r),
    {
        PublicationTable {
            schema: row.text(0),
            name: row.text(1),
            attributes: row.text(2),
            parent_schema: row.text(3),
            parent_name: row.text(4),
        }
    }

    /// Name of the table that changes go to: a partition gives its changes to its parent.
    pub open spec fn target_name(&self) -> Seq<char> {
        if self.parent_name@.len() == 0 {
            self.name@
        } else {
            self.parent_name@
        }
    }

    /// Schema of the table that changes go to.
    pub open spec fn target_schema(&self) -> Seq<char> {
        if self.parent_schema@.len() == 0 {
            self.schema@
        } else {
            self.parent_schema@
        }
    }

    /// Name of the table that changes go to: a partition gives its changes to its parent.
    pub fn destination_name(&self) -> (r: &str)
        ensures
            r@ == self.target_name(),
    {
        if self.parent_name.as_str().is_empty() {
            self.name.as_str()
        } else {
            self.parent_name.as_str()
        }
    }

    /// Schema of the table that changes go to.
    pub fn destination_schema(&self) -> (r: &str)
        ensures
            r@ == self.target_schema(),
    {
        if self.parent_schema.as_str().is_empty() {
            self.schema.as_str()
        } else {
            self.parent_schema.as_str()
        }
    }

    /// The table as it is shown.
    pub open spec fn shown(&self) -> Seq<char> {
        "\""@ + self.schema@ + "\".\""@ + self.name@ + "\""@
    }

    /// The table as it is shown.
    pub fn to_string(&self) -> (r: String)
        ensures
            r@ == self.shown(),
    {
        let mut out = concat3("\"", self.schema.as_str(), "\".\"");
        out.append(self.name.as_str());
        out.append("\"");
        out
    }
}

/// Columns of a table that tell its rows apart.
#[derive(Debug)]
pub struct ReplicaIdentity {
    /// Number of the table.
    pub oid: Oid,
    /// `d` for the primary key, `i` for an index, `f` for all columns, `n` for none.
    pub identity: String,
    /// Kind of the table.
    pub kind: String,
}

/// The row tells of this identity.
pub open spec fn identity_of(row: DataRow, r: ReplicaIdentity) -> bool {
    &&& r.oid.0 == oid_or_zero(text_at(row, 0))
    &&& r.identity@ == text_or_empty(text_at(row, 1))
    &&& r.kind@ == text_or_empty(text_at(row, 2))
}

impl ReplicaIdentity {
    /// The query for the identity of a table.
    pub fn load(table: &PublicationTable) -> (r: String)
        ensures
            r@ == substituted(
                substituted(REPLICA_IDENTIFY@, "$1"@, literal(table.schema@)),
                "$2"@,
                literal(table.name@),
            ),
    {
        proof {
            reveal_strlit("$1");
            reveal_strlit("$2");
        }
        let first = substitute(
            REPLICA_IDENTIFY,
            "$1",
            quote_literal(table.schema.as_str()).as_str(),
        );
        substitute(first.as_str(), "$2", quote_literal(table.name.as_str()).as_str())
    }

    /// The identity that a row tells of.
    pub fn from_row(row: &DataRow) -> (r: Self)
        ensures
            identity_of(*row, r),
    {
        ReplicaIdentity { oid: row.oid(0), identity: row.text(1), kind: row.text(2) }
    }

    /// The identity that the answer tells of: that of its last row. There has to be one.
    pub fn from_rows(table: &PublicationTable, rows: &Vec<DataRow>) -> (r: Result<Self, Error>)
        ensures
            match r {
                Ok(identity) => rows@.len() > 0 && identity_of(rows@.last(), identity),
                Err(e) => rows@.len() == 0 && e == Error::NoReplicaIdentity(
                    table.schema,
                    table.name,
                ),
            },
    {
        if rows.len() == 0 {
            return Err(Error::NoReplicaIdentity(table.schema.clone(), table.name.clone()));
        }
        Ok(ReplicaIdentity::from_row(&rows[rows.len() - 1]))
    }
}

/// Column of a table.
#[derive(Debug)]
pub struct PublicationTableColumn {
    /// Number of the column in its table.
    pub oid: i32,
    /// Name of the column.
    pub name: String,
    /// Number of its type.
    pub type_oid: Oid,
    /// The column is part of what tells rows apart.
    pub identity: bool,
}

/// The row tells of this column.
pub open spec fn column_of(row: DataRow, c: PublicationTableColumn) -> bool {
    &&& c.oid == number_or_zero(text_at(row, 0))
    &&& c.name@ == text_or_empty(text_at(row, 1))
    &&& c.type_oid.0 == oid_or_zero(text_at(row, 2))
    &&& c.identity == says_yes(text_at(row, 3))
}

impl PublicationTableColumn {
    /// The query for the columns of a table.
    pub fn load(identity: &ReplicaIdentity) -> (r: String)
        ensures
            r@ == substituted(
                substituted(COLUMNS@, "$1"@, decimal(identity.oid.0 as nat)),
                "$2"@,
                decimal(identity.oid.0 as nat),
            ),
    {
        proof {
            reveal_strlit("$1");
            reveal_strlit("$2");
        }
        let oid = identity.oid.to_string();
        let first = substitute(COLUMNS, "$1", oid.as_str());
        substitute(first.as_str(), "$2", oid.as_str())
    }

    /// The column that a row tells of.
    pub fn from_row(row: &DataRow) -> (r: Self)
        ensures
            column_of(*row, r),
    {
        PublicationTableColumn {
            oid: row.number(0),
            name: row.text(1),
            type_oid: row.oid(2),
            identity: row.flag(3),
        }
    }

    /// The columns that the answer tells of.
    pub fn from_rows(rows: &Vec<DataRow>) -> (r: Vec<Self>)
        ensures
            r@.len() == rows@.len(),
            forall|i: int| 0 <= i < rows@.len() ==> column_of(rows@[i], #[trigger] r@[i]),
    {
        let mut columns: Vec<PublicationTableColumn> = Vec::new();
        for i in 0..rows.len()
            invariant
                columns@.len() == i,
                forall|k: int| 0 <= k < i ==> column_of(rows@[k], #[trigger] columns@[k]),
        {
            columns.push(PublicationTableColumn::from_row(&rows[i]));
        }
        columns
    }
}

/// Schema and name of a table as a pair of literals.
pub open spec fn table_pair(t: PublicationTable) -> Seq<char> {
    "("@ + literal(t.target_schema()) + ", "@ + literal(t.target_name()) + ")"@
}

/// The pairs of all tables.
pub open spec fn table_pairs(tables: Seq<PublicationTable>) -> Seq<Seq<char>> {
    tables.map_values(|t: PublicationTable| table_pair(t))
}

/// The query for those among the tables that have a suitable unique index. No tables, no query.
pub fn unique_index_query(tables: &Vec<PublicationTable>) -> (r: Option<String>)
    ensures
        match r {
            Some(sql) => tables@.len() > 0 && sql@ == substituted(
                UNIQUE_INDEX@,
                "$1"@,
                joined(table_pairs(tables@), ", "@),
            ),
            None => tables@.len() == 0,
        },
{
    if tables.len() == 0 {
        return None;
    }
    let mut parts: Vec<String> = Vec::new();
    for i in 0..tables.len()
        invariant
            views(parts@) == table_pairs(tables@.take(i as int)),
    {
        let t = &tables[i];
        let mut part = concat3("(", quote_literal(t.destination_schema()).as_str(), ", ");
        part.append(quote_literal(t.destination_name()).as_str());
        part.append(")");
        let ghost before = parts@;
        parts.push(part);
        proof {
            assert(views(parts@) == views(before).push(table_pair(*t)));
            assert(table_pairs(tables@.take(i + 1)) == table_pairs(tables@.take(i as int)).push(
                table_pair(*t),
            ));
        }
    }
    proof {
        assert(tables@.take(tables@.len() as int) == tables@);
        reveal_strlit("$1");
    }
    let list = join(&parts, ", ");
    Some(substitute(UNIQUE_INDEX, "$1", list.as_str()))
}

/// A row names the table that the changes of this one go to.
pub open spec fn names(row: DataRow, t: PublicationTable) -> bool {
    text_at(row, 0) == Some(t.target_schema()) && text_at(row, 1) == Some(t.target_name())
}

/// One of the rows names the table that the changes of this one go to.
pub open spec fn named(rows: Seq<DataRow>, t: PublicationTable) -> bool {
    exists|i: int| 0 <= i < rows.len() && names(#[trigger] rows[i], t)
}

/// Every row has a schema and a name.
pub open spec fn complete(rows: Seq<DataRow>) -> bool {
    forall|i: int|
        0 <= i < rows.len() ==> text_at(#[trigger] rows[i], 0) is Some && text_at(rows[i], 1)
            is Some
}

/// The tables that no row names.
pub open spec fn not_named(tables: Seq<PublicationTable>, rows: Seq<DataRow>) -> Seq<
    PublicationTable,
> {
    tables.filter(|t: PublicationTable| !named(rows, t))
}

/// The tables as they are shown.
pub open spec fn all_shown(tables: Seq<PublicationTable>) -> Seq<Seq<char>> {
    tables.map_values(|t: PublicationTable| t.shown())
}

fn names_table(row: &DataRow, t: &PublicationTable) -> (r: bool)
    ensures
        r == names(*row, *t),
{
    match (row.get(0), row.get(1)) {
        (Some(schema), Some(name)) => {
            same(schema, t.destination_schema()) && same(name, t.destination_name())
        },
        _ => false,
    }
}

fn named_by(rows: &Vec<DataRow>, t: &PublicationTable) -> (r: bool)
    ensures
        r == named(rows@, *t),
{
    for i in 0..rows.len()
        invariant
            forall|k: int| 0 <= k < i ==> !names(#[trigger] rows@[k], *t),
    {
        if names_table(&rows[i], t) {
            assert(names(rows@[i as int], *t));
            return true;
        }
    }
    false
}

/// The tables that lack a suitable unique index: those that the answer does not name. A row
/// without a schema or a name cannot be read.
pub fn tables_missing_unique_index(tables: &Vec<PublicationTable>, rows: &Vec<DataRow>) -> (r:
    Result<Vec<String>, Error>)
    ensures
        match r {
            Ok(list) => complete(rows@) && views(list@) == all_shown(not_named(tables@, rows@)),
            Err(e) => !complete(rows@) && e == Error::MissingData,
        },
{
    for i in 0..rows.len()
        invariant
            forall|k: int|
                0 <= k < i ==> text_at(#[trigger] rows@[k], 0) is Some && text_at(rows@[k], 1)
                    is Some,
    {
        if rows[i].get(0).is_none() || rows[i].get(1).is_none() {
            assert(text_at(rows@[i as int], 0) is None || text_at(rows@[i as int], 1) is None);
            return Err(Error::MissingData);
        }
    }
    let mut missing: Vec<String> = Vec::new();
    proof {
        reveal(Seq::filter);
    }
    for i in 0..tables.len()
        invariant
            views(missing@) == all_shown(not_named(tables@.take(i as int), rows@)),
    {
        proof {
            reveal(Seq::filter);
            assert(tables@.take(i + 1).drop_last() == tables@.take(i as int));
        }
        let ghost before = missing@;
        let ghost left = not_named(tables@.take(i as int), rows@);
        if !named_by(rows, &tables[i]) {
            missing.push(tables[i].to_string());
            proof {
                let t = tables@[i as int];
                assert(views(missing@) == views(before).push(t.shown()));
                assert(all_shown(left.push(t)) == all_shown(left).push(t.shown()));
                assert(not_named(tables@.take(i + 1), rows@) == left.push(t));
            }
        } else {
            assert(not_named(tables@.take(i + 1), rows@) == left);
        }
    }
    assert(tables@.take(tables@.len() as int) == tables@);
    Ok(missing)
}

/// Whatever the number of an object, it reads back as it was written: numbers that a signed number
/// of 32 bits cannot hold are no exception.
pub proof fn oids_round_trip(oid: u32)
    ensures
        oid_or_zero(Some(decimal(oid as nat))) == oid,
{
    numbers_round_trip(oid as nat);
}

} // verus!
