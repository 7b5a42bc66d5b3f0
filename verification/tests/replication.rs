//! Logical replication.

use pgdog::config::general::QueryParserEngine;
use pgdog::config::sharding::ShardedTable;
use pgdog::numbers::{parse_i32, parse_u32};
use pgdog::pool::cluster::{DatabaseUser, ShardedTables};
use pgdog::pool::config::Address;
use pgdog::replication::columns::{ColumnValue, NonIdentityColumnsPresence, TupleData};
use pgdog::replication::error::{Error, TableValidationErrorKind};
use pgdog::replication::queries::{
    quote_literal, tables_missing_unique_index, unique_index_query, DataRow, Oid, PublicationTable,
    PublicationTableColumn, ReplicaIdentity,
};
use pgdog::replication::status::{
    ReplicationSlot, ReplicationSlots, SchemaStatement, SchemaStatements, Statement, StatementKind,
    StatementTable, SyncState, TableCopies, TableCopy,
};
use pgdog::replication::sync::{LoadAction, SyncEvent, SyncStep, TableLoad};
use pgdog::replication::table::{destination_has_rows, Lsn, Table};
use pgdog::time::{Duration, Instant};

fn publication_table(schema: &str, name: &str) -> PublicationTable {
    PublicationTable {
        schema: schema.to_string(),
        name: name.to_string(),
        attributes: "".to_string(),
        parent_schema: "".to_string(),
        parent_name: "".to_string(),
    }
}

fn make_table(columns: Vec<(&str, bool)>) -> Table {
    Table {
        publication: "test".to_string(),
        table: publication_table("public", "test_table"),
        identity: ReplicaIdentity {
            oid: Oid(1),
            identity: "".to_string(),
            kind: "".to_string(),
        },
        columns: columns
            .into_iter()
            .map(|(name, identity)| PublicationTableColumn {
                oid: 1,
                name: name.to_string(),
                type_oid: Oid(23),
                identity,
            })
            .collect(),
        lsn: Lsn::default(),
        query_parser_engine: QueryParserEngine::default(),
    }
}

fn text_col(text: &str) -> ColumnValue {
    ColumnValue::Text(text.to_string())
}

fn toasted_col() -> ColumnValue {
    ColumnValue::Toasted
}

fn present(table: &Table, columns: Vec<ColumnValue>) -> NonIdentityColumnsPresence {
    NonIdentityColumnsPresence::from_tuple(&TupleData { columns }, &table.columns).unwrap()
}

fn row(columns: &[&str]) -> DataRow {
    let mut row = DataRow::new();
    for column in columns {
        row.add(column.to_string());
    }
    row
}

fn now() -> Instant {
    Instant { nanos: 1_000_000_000_000 }
}

#[test]
fn valid_with_pk() {
    let t = make_table(vec![("id", true), ("name", false)]);
    assert!(t.valid().is_ok());
}

#[test]
fn valid_without_pk() {
    let t = make_table(vec![("id", false), ("name", false)]);
    let err = t.valid().unwrap_err();
    assert_eq!(err.kind, TableValidationErrorKind::NoIdentityColumns);
    assert_eq!(err.table_name, "\"public\".\"test_table\"");
}

#[test]
fn valid_by_replica_identity() {
    let mut t = make_table(vec![("id", false)]);
    t.identity.identity = "f".to_string();
    assert!(t.is_identity_full());
    assert!(t.valid().is_ok());
    let mut t = make_table(vec![("id", true)]);
    t.identity.identity = "n".to_string();
    assert_eq!(t.valid().unwrap_err().kind, TableValidationErrorKind::ReplicaIdentityNothing);
    t.identity.identity = "i".to_string();
    assert!(t.valid().is_ok());
}

#[test]
fn test_sql_generation_simple() {
    let table = make_table(vec![("id", true), ("name", false), ("value", false)]);
    assert_eq!(
        table.insert(),
        r#"INSERT INTO "public"."test_table" ("id", "name", "value") VALUES ($1, $2, $3)"#
    );
    assert_eq!(
        table.upsert(),
        r#"INSERT INTO "public"."test_table" ("id", "name", "value") VALUES ($1, $2, $3) ON CONFLICT ("id") DO UPDATE SET "name" = $2, "value" = $3"#
    );
    assert_eq!(
        table.update(),
        r#"UPDATE "public"."test_table" SET "name" = $2, "value" = $3 WHERE "id" = $1"#
    );
    assert_eq!(table.delete(), r#"DELETE FROM "public"."test_table" WHERE "id" = $1"#);
}

#[test]
fn test_sql_generation_quoted_column() {
    let table = make_table(vec![("id", true), ("has\"quote", false), ("normal", false)]);
    assert_eq!(
        table.insert(),
        r#"INSERT INTO "public"."test_table" ("id", "has""quote", "normal") VALUES ($1, $2, $3)"#
    );
    assert_eq!(
        table.upsert(),
        r#"INSERT INTO "public"."test_table" ("id", "has""quote", "normal") VALUES ($1, $2, $3) ON CONFLICT ("id") DO UPDATE SET "has""quote" = $2, "normal" = $3"#
    );
    assert_eq!(
        table.update(),
        r#"UPDATE "public"."test_table" SET "has""quote" = $2, "normal" = $3 WHERE "id" = $1"#
    );
    assert_eq!(table.delete(), r#"DELETE FROM "public"."test_table" WHERE "id" = $1"#);
}

#[test]
fn test_delete_sequential_params_identity_not_first() {
    let table = make_table(vec![("name", false), ("value", false), ("id", true)]);
    assert_eq!(table.delete(), r#"DELETE FROM "public"."test_table" WHERE "id" = $1"#);
}

#[test]
fn test_delete_sequential_params_composite_key() {
    let table = make_table(vec![("id", true), ("name", false), ("version", true)]);
    assert_eq!(
        table.delete(),
        r#"DELETE FROM "public"."test_table" WHERE "id" = $1 AND "version" = $2"#,
    );
}

#[test]
fn test_delete_identity_first_correct() {
    let table = make_table(vec![("id", true), ("name", false)]);
    assert_eq!(table.delete(), r#"DELETE FROM "public"."test_table" WHERE "id" = $1"#);
}

#[test]
fn test_update_param_numbering_identity_trailing() {
    let table = make_table(vec![("name", false), ("id", true)]);
    assert_eq!(
        table.update(),
        r#"UPDATE "public"."test_table" SET "name" = $1 WHERE "id" = $2"#,
    );
}

#[test]
fn test_update_param_numbering_identity_leading() {
    let table = make_table(vec![("id", true), ("name", false), ("value", false)]);
    assert_eq!(
        table.update(),
        r#"UPDATE "public"."test_table" SET "name" = $2, "value" = $3 WHERE "id" = $1"#,
    );
}

#[test]
fn test_upsert_param_numbering_identity_trailing() {
    let table = make_table(vec![("name", false), ("value", false), ("id", true)]);
    assert_eq!(
        table.upsert(),
        r#"INSERT INTO "public"."test_table" ("name", "value", "id") VALUES ($1, $2, $3) ON CONFLICT ("id") DO UPDATE SET "name" = $1, "value" = $2"#,
    );
}

#[test]
fn test_upsert_param_numbering_identity_leading() {
    let table = make_table(vec![("id", true), ("name", false), ("value", false)]);
    assert_eq!(
        table.upsert(),
        r#"INSERT INTO "public"."test_table" ("id", "name", "value") VALUES ($1, $2, $3) ON CONFLICT ("id") DO UPDATE SET "name" = $2, "value" = $3"#,
    );
}

#[test]
fn test_sql_generation_special_chars() {
    let table = make_table(vec![("id", true), ("col with spaces", false), ("UPPER", false)]);
    assert_eq!(
        table.insert(),
        r#"INSERT INTO "public"."test_table" ("id", "col with spaces", "UPPER") VALUES ($1, $2, $3)"#
    );
    assert_eq!(
        table.upsert(),
        r#"INSERT INTO "public"."test_table" ("id", "col with spaces", "UPPER") VALUES ($1, $2, $3) ON CONFLICT ("id") DO UPDATE SET "col with spaces" = $2, "UPPER" = $3"#
    );
    assert_eq!(
        table.update(),
        r#"UPDATE "public"."test_table" SET "col with spaces" = $2, "UPPER" = $3 WHERE "id" = $1"#
    );
    assert_eq!(table.delete(), r#"DELETE FROM "public"."test_table" WHERE "id" = $1"#);
}

#[test]
fn test_sql_generation_quoted_table_name() {
    let mut table = make_table(vec![("id", true), ("value", false)]);
    table.table.name = "table\"with\"quotes".to_string();
    table.table.schema = "schema\"quote".to_string();
    assert_eq!(
        table.insert(),
        r#"INSERT INTO "schema""quote"."table""with""quotes" ("id", "value") VALUES ($1, $2)"#
    );
    assert_eq!(
        table.upsert(),
        r#"INSERT INTO "schema""quote"."table""with""quotes" ("id", "value") VALUES ($1, $2) ON CONFLICT ("id") DO UPDATE SET "value" = $2"#
    );
    assert_eq!(
        table.update(),
        r#"UPDATE "schema""quote"."table""with""quotes" SET "value" = $2 WHERE "id" = $1"#
    );
    assert_eq!(
        table.delete(),
        r#"DELETE FROM "schema""quote"."table""with""quotes" WHERE "id" = $1"#
    );
}

#[test]
fn update_partial_all_columns() {
    let table = make_table(vec![("id", true), ("a", false), ("b", false)]);
    let present = NonIdentityColumnsPresence::all(&table.columns);
    assert_eq!(
        table.update_partial(&present),
        r#"UPDATE "public"."test_table" SET "a" = $2, "b" = $3 WHERE "id" = $1"#,
    );
}

#[test]
fn update_partial_skips_toasted_column() {
    let table = make_table(vec![("id", true), ("a", false), ("b", false), ("c", false)]);
    let present =
        present(&table, vec![text_col("1"), text_col("x"), toasted_col(), text_col("z")]);
    assert_eq!(
        table.update_partial(&present),
        r#"UPDATE "public"."test_table" SET "a" = $2, "c" = $3 WHERE "id" = $1"#,
    );
}

#[test]
fn update_partial_identity_not_first() {
    let table = make_table(vec![("name", false), ("value", false), ("id", true)]);
    let present = NonIdentityColumnsPresence::all(&table.columns);
    assert_eq!(
        table.update_partial(&present),
        r#"UPDATE "public"."test_table" SET "name" = $1, "value" = $2 WHERE "id" = $3"#,
    );
}

#[test]
fn update_partial_identity_in_middle() {
    let table = make_table(vec![("a", false), ("id", true), ("b", false)]);
    let present = NonIdentityColumnsPresence::all(&table.columns);
    assert_eq!(
        table.update_partial(&present),
        r#"UPDATE "public"."test_table" SET "a" = $1, "b" = $3 WHERE "id" = $2"#,
    );
}

#[test]
fn update_partial_multiple_identity_columns() {
    let table = make_table(vec![("id1", true), ("id2", true), ("a", false), ("b", false)]);
    let present = NonIdentityColumnsPresence::all(&table.columns);
    assert_eq!(
        table.update_partial(&present),
        r#"UPDATE "public"."test_table" SET "a" = $3, "b" = $4 WHERE "id1" = $1 AND "id2" = $2"#,
    );
}

#[test]
fn update_partial_first_non_identity_toasted() {
    let table = make_table(vec![("a", false), ("b", false), ("id", true)]);
    let present = present(&table, vec![toasted_col(), text_col("bv"), text_col("1")]);
    assert_eq!(
        table.update_partial(&present),
        r#"UPDATE "public"."test_table" SET "b" = $1 WHERE "id" = $2"#,
    );
}

#[test]
fn update_partial_two_identity_interleaved_two_toasted() {
    let table = make_table(vec![
        ("a", false),
        ("id1", true),
        ("b", false),
        ("c", false),
        ("id2", true),
    ]);
    let present = present(
        &table,
        vec![toasted_col(), text_col("1"), text_col("bv"), toasted_col(), text_col("2")],
    );
    assert_eq!(
        table.update_partial(&present),
        r#"UPDATE "public"."test_table" SET "b" = $2 WHERE "id1" = $1 AND "id2" = $3"#,
    );
}

#[test]
fn rows_have_all_columns() {
    let table = make_table(vec![("a", false), ("b", false)]);
    let short = TupleData { columns: vec![ColumnValue::Null] };
    let err = NonIdentityColumnsPresence::from_tuple(&short, &table.columns).unwrap_err();
    assert!(matches!(err, Error::ColumnCount(2, 1)));
    let none = present(&table, vec![toasted_col(), toasted_col()]);
    assert!(none.no_non_identity_present());
    assert!(!none.is_set(0));
    let null = present(&table, vec![ColumnValue::Null, toasted_col()]);
    assert!(null.is_set(0));
    assert!(!null.no_non_identity_present());
}

#[test]
fn upsert_full_identity_is_valid_sql() {
    let table = make_table(vec![("a", false), ("b", false), ("c", false)]);
    assert_eq!(
        table.upsert_full_identity(),
        r#"INSERT INTO "public"."test_table" ("a", "b", "c") VALUES ($1, $2, $3) ON CONFLICT DO NOTHING"#,
    );
}

fn subquery() -> String {
    let (q, s, t) = ('"', "public", "test_table");
    let pred = format!("{q}a{q} IS NOT DISTINCT FROM $1 AND {q}b{q} IS NOT DISTINCT FROM $2 AND {q}c{q} IS NOT DISTINCT FROM $3");
    format!("(SELECT tableoid, ctid FROM {q}{s}{q}.{q}{t}{q} WHERE {pred} LIMIT 1)")
}

#[test]
fn delete_full_identity_param_numbering() {
    let table = make_table(vec![("a", false), ("b", false), ("c", false)]);
    assert_eq!(
        table.delete_full_identity(),
        format!(
            "DELETE FROM \"public\".\"test_table\" WHERE (tableoid, ctid) = {}",
            subquery()
        )
    );
}

#[test]
fn delete_full_identity_single_column() {
    let table = make_table(vec![("id", false)]);
    let (q, s, t) = ('"', "public", "test_table");
    let pred = format!("{q}id{q} IS NOT DISTINCT FROM $1");
    let subq = format!("(SELECT tableoid, ctid FROM {q}{s}{q}.{q}{t}{q} WHERE {pred} LIMIT 1)");
    assert_eq!(
        table.delete_full_identity(),
        format!("DELETE FROM {q}{s}{q}.{q}{t}{q} WHERE (tableoid, ctid) = {subq}")
    );
}

fn full_update(set: &str) -> String {
    format!(
        "UPDATE \"public\".\"test_table\" SET {} WHERE (tableoid, ctid) = {}",
        set,
        subquery()
    )
}

#[test]
fn update_full_identity_all_present() {
    let table = make_table(vec![("a", false), ("b", false), ("c", false)]);
    assert_eq!(
        table.update_full_identity(),
        full_update("\"a\" = $4, \"b\" = $5, \"c\" = $6")
    );
}

#[test]
fn update_full_identity_partial_present() {
    let table = make_table(vec![("a", false), ("b", false), ("c", false)]);
    let present = present(&table, vec![text_col("1"), toasted_col(), text_col("3")]);
    assert_eq!(
        table.update_full_identity_partial_set(&present),
        full_update("\"a\" = $4, \"c\" = $5")
    );
}

#[test]
fn update_full_identity_first_column_toasted() {
    let table = make_table(vec![("a", false), ("b", false), ("c", false)]);
    let present = present(&table, vec![toasted_col(), text_col("2"), text_col("3")]);
    assert_eq!(
        table.update_full_identity_partial_set(&present),
        full_update("\"b\" = $4, \"c\" = $5")
    );
}

#[test]
fn update_full_identity_only_one_column_present() {
    let table = make_table(vec![("a", false), ("b", false), ("c", false)]);
    let present = present(&table, vec![toasted_col(), toasted_col(), text_col("3")]);
    assert_eq!(table.update_full_identity_partial_set(&present), full_update("\"c\" = $4"));
}

#[test]
fn test_replica_identity_decodes_oid_above_i32_max() {
    let row = row(&["2500000000", "d", "r"]);
    let identity = ReplicaIdentity::from_row(&row);
    assert_eq!(identity.oid, Oid(2_500_000_000));
    assert_eq!(identity.identity, "d");
    assert_eq!(identity.kind, "r");
}

#[test]
fn test_replica_identity_substitutes_high_oid_into_columns_query() {
    let identity = ReplicaIdentity {
        oid: Oid(2_500_000_000),
        identity: "d".to_string(),
        kind: "r".to_string(),
    };
    let rendered = PublicationTableColumn::load(&identity);
    assert!(rendered.contains("pg_get_replica_identity_index(2500000000)"));
    assert!(rendered.contains("a.attrelid = 2500000000"));
    assert!(!rendered.contains("(0)"));
    assert!(!rendered.contains("= 0 "));
}

#[test]
fn test_publication_table_column_decodes_high_type_oid() {
    let row = row(&["1", "col", "3000000000", "t"]);
    let column = PublicationTableColumn::from_row(&row);
    assert_eq!(column.type_oid, Oid(3_000_000_000));
    assert_eq!(column.name, "col");
    assert!(column.identity);
    assert_eq!(column.oid, 1);
}

#[test]
fn values_that_cannot_be_read_are_left_out() {
    let mut row = row(&["x", "col"]);
    row.columns.push(None);
    let column = PublicationTableColumn::from_row(&row);
    assert_eq!(column.oid, 0);
    assert_eq!(column.type_oid, Oid(0));
    assert!(!column.identity);
}

#[test]
fn numbers_are_read_as_they_are_written() {
    for n in [0u32, 7, 10, 4_294_967_295] {
        assert_eq!(parse_u32(&n.to_string()), Some(n));
        assert_eq!(parse_u32(&Oid(n).to_string()), Some(n));
    }
    assert_eq!(parse_u32("4294967296"), None);
    assert_eq!(parse_u32("99999999999999999999999"), None);
    assert_eq!(parse_u32("-1"), None);
    assert_eq!(parse_u32("+5"), Some(5));
    assert_eq!(parse_u32(""), None);
    assert_eq!(parse_u32("+"), None);
    assert_eq!(parse_i32("-2147483648"), Some(i32::MIN));
    assert_eq!(parse_i32("2147483648"), None);
    assert_eq!(parse_i32("007"), Some(7));
    assert_eq!(parse_i32("1 "), None);
}

#[test]
fn literals_are_quoted() {
    assert_eq!(quote_literal("it's"), "'it''s'");
    let sql = PublicationTable::load("pub's");
    assert!(sql.contains("WHERE pubname IN ('pub''s')"));
    assert!(!sql.contains("$1"));
    let sql = ReplicaIdentity::load(&publication_table("s", "t"));
    assert!(sql.ends_with("WHERE n.nspname = 's' AND c.relname = 't'"));
}

#[test]
fn partitions_go_to_their_parents() {
    let mut table = publication_table("s", "t");
    assert_eq!(table.destination_name(), "t");
    assert_eq!(table.destination_schema(), "s");
    table.parent_name = "p".to_string();
    table.parent_schema = "ps".to_string();
    assert_eq!(table.destination_name(), "p");
    assert_eq!(table.destination_schema(), "ps");
    assert_eq!(table.to_string(), "\"s\".\"t\"");
}

#[test]
fn tables_without_unique_index_are_found() {
    assert!(unique_index_query(&vec![]).is_none());
    let tables = vec![publication_table("s", "a"), publication_table("s", "b")];
    let sql = unique_index_query(&tables).unwrap();
    assert!(sql.contains("WHERE (n.nspname, c.relname) IN (('s', 'a'), ('s', 'b'))"));

    let missing = tables_missing_unique_index(&tables, &vec![row(&["s", "b"])]).unwrap();
    assert_eq!(missing, vec!["\"s\".\"a\"".to_string()]);
    let missing = tables_missing_unique_index(&tables, &vec![]).unwrap();
    assert_eq!(missing.len(), 2);
    let err = tables_missing_unique_index(&tables, &vec![row(&["s"])]).unwrap_err();
    assert!(matches!(err, Error::MissingData));
}

#[test]
fn sharded_tables_are_recognised() {
    let table = make_table(vec![("id", true), ("name", false)]);
    let entry = |name: Option<&str>, schema: Option<&str>, column: &str| ShardedTables {
        tables: vec![ShardedTable {
            database: "db".to_string(),
            name: name.map(|n| n.to_string()),
            schema: schema.map(|n| n.to_string()),
            column: column.to_string(),
        }],
        omnisharded: vec![],
    };
    assert!(table.is_sharded(&entry(Some("test_table"), None, "id")));
    assert!(table.is_sharded(&entry(None, None, "name")));
    assert!(!table.is_sharded(&entry(Some("other"), None, "id")));
    assert!(!table.is_sharded(&entry(None, Some("other"), "id")));
    assert!(!table.is_sharded(&entry(None, None, "other")));
    assert!(!table.is_sharded(&ShardedTables::default()));
}

#[test]
fn rows_at_the_destination_are_seen() {
    let table = make_table(vec![("id", true)]);
    assert_eq!(table.has_rows_query(), "SELECT 1 FROM \"public\".\"test_table\" LIMIT 1");
    let empty = || Ok(vec!['T', 'C', 'Z']);
    let full = || Ok(vec!['T', 'D', 'C', 'Z']);
    assert!(!destination_has_rows(vec![]).unwrap());
    assert!(!destination_has_rows(vec![empty(), empty()]).unwrap());
    assert!(destination_has_rows(vec![empty(), full()]).unwrap());
    assert!(destination_has_rows(vec![empty(), Err(Error::MissingData)]).is_err());
    assert!(destination_has_rows(vec![full(), Err(Error::MissingData)]).unwrap());
}

fn query(action: Result<LoadAction, Error>) -> String {
    match action.unwrap() {
        LoadAction::Query(sql) => sql,
        LoadAction::Finish => panic!("there is more to load"),
    }
}

#[test]
fn tables_are_loaded_one_by_one() {
    let (mut load, first) = TableLoad::load("pub", QueryParserEngine::default());
    assert!(query(Ok(first)).contains("'pub'"));
    let sql = query(load.answer(&vec![row(&["s", "a"]), row(&["s", "b"])]));
    assert!(sql.contains("'a'"));
    let sql = query(load.answer(&vec![row(&["17", "d", "r"])]));
    assert!(sql.contains("a.attrelid = 17"));
    let sql = query(load.answer(&vec![row(&["1", "id", "23", "t"])]));
    assert!(sql.contains("'b'"));
    assert!(matches!(load.answer(&vec![]), Err(Error::NoReplicaIdentity(_, _))));
    query(load.answer(&vec![row(&["18", "f", "r"])]));
    assert!(matches!(load.answer(&vec![]), Ok(LoadAction::Finish)));
    assert_eq!(load.tables.len(), 2);
    assert_eq!(load.tables[0].columns[0].name, "id");
    assert_eq!(load.tables[1].key(), ("s".to_string(), "b".to_string()));
    assert_eq!(load.tables[1].publication, "pub");

    let (mut load, _) = TableLoad::load("pub", QueryParserEngine::default());
    assert!(matches!(load.answer(&vec![]), Ok(LoadAction::Finish)));
}

#[test]
fn tables_are_looked_at_inside_a_transaction() {
    let mut table = make_table(vec![("id", true)]);
    let identity = vec![row(&["17", "d", "r"])];
    let columns = vec![row(&["1", "key", "23", "t"])];
    let err = table.reload(false, &identity, &columns).unwrap_err();
    assert!(matches!(err, Error::TransactionNotStarted));
    assert!(matches!(
        table.reload(true, &vec![], &columns),
        Err(Error::NoReplicaIdentity(_, _))
    ));
    table.reload(true, &identity, &columns).unwrap();
    assert_eq!(table.identity.oid, Oid(17));
    assert_eq!(table.columns[0].name, "key");
}

#[test]
fn rows_are_copied_step_by_step() {
    let mut table = make_table(vec![("id", true)]);
    let lsn = Lsn { lsn: 1234 };
    let mut step = SyncStep::Describe;
    let mut seen = vec![step];
    let mut rows = 2;
    while step != SyncStep::Finish(lsn) {
        let event = match step {
            SyncStep::CreateSlot => SyncEvent::SlotCreated(lsn),
            SyncStep::ReadRow if rows > 0 => {
                rows -= 1;
                SyncEvent::More
            }
            SyncStep::ReadRow | SyncStep::Drain => SyncEvent::End,
            _ => SyncEvent::Done,
        };
        step = table.data_sync(step, event).unwrap();
        seen.push(step);
    }
    assert_eq!(table.lsn, lsn);
    assert_eq!(seen.iter().filter(|s| **s == SyncStep::WriteRow).count(), 2);
    let commit = seen.iter().position(|s| *s == SyncStep::Commit).unwrap();
    let told = seen.iter().position(|s| *s == SyncStep::Acknowledge(lsn)).unwrap();
    assert!(commit < told);

    let err = table.data_sync(SyncStep::WriteRow, SyncEvent::Aborted).unwrap_err();
    assert!(matches!(err, Error::CopyAborted(_)));
    let err = table.data_sync(SyncStep::Reload, SyncEvent::Failed(Error::MissingData)).unwrap_err();
    assert!(matches!(err, Error::MissingData));
    let err = table.data_sync(SyncStep::Reload, SyncEvent::More).unwrap_err();
    assert!(matches!(err, Error::OutOfOrder));
}

#[test]
fn copies_are_followed_until_they_end() {
    let mut copies = TableCopies::new();
    let copy = TableCopy::new(&mut copies, "s", "t", now());
    assert_eq!(copies.get("s", "t").unwrap().bytes, 0);
    assert!(copies.get("s", "other").is_none());
    copy.update_sql(&mut copies, "COPY s.t TO STDOUT");
    assert_eq!(copies.get("s", "t").unwrap().sql, "COPY s.t TO STDOUT");

    let state = copy.update_progress(&mut copies, 100, 3, now()).unwrap();
    assert_eq!((state.bytes, state.rows, state.bytes_per_sec), (100, 3, 0));
    let later = now().later(Duration::from_secs(4));
    let state = copy.update_progress(&mut copies, 101, 2, later).unwrap();
    assert_eq!((state.bytes, state.rows, state.bytes_per_sec), (201, 5, 50));
    assert_eq!(copies.get("s", "t").unwrap().bytes, 201);

    copy.reset(&mut copies, later).unwrap();
    let state = copies.get("s", "t").unwrap();
    assert_eq!((state.bytes, state.rows, state.bytes_per_sec), (0, 0, 0));
    assert_eq!(state.last_update, later);
    let state = copy.update_progress(&mut copies, 10, 1, later).unwrap();
    assert_eq!((state.bytes, state.rows), (10, 1));

    let again = TableCopy::new(&mut copies, "s", "u", now());
    copy.finish(&mut copies);
    assert!(copies.get("s", "t").is_none());
    assert!(copies.get("s", "u").is_some());
    let gone = TableCopy { schema: "s".to_string(), table: "t".to_string() };
    assert!(gone.update_progress(&mut copies, 1, 1, now()).is_none());
    again.finish(&mut copies);
}

#[test]
fn slots_are_followed_until_they_are_dropped() {
    let mut slots = ReplicationSlots::new();
    let address = Address { host: "h".to_string(), ..Default::default() };
    let slot = ReplicationSlot::new(&mut slots, "slot", &Lsn { lsn: 5 }, false, &address);
    assert_eq!(slots.get("slot").unwrap().lsn, Lsn { lsn: 5 });
    assert_eq!(slots.get("slot").unwrap().address.host, "h");
    slot.update_lag(&mut slots, 77).unwrap();
    slot.update_lsn(&mut slots, &Lsn { lsn: 9 }, now()).unwrap();
    let state = slots.get("slot").unwrap();
    assert_eq!((state.lag, state.lsn.lsn, state.last_transaction), (77, 9, Some(now())));

    // The slot outlives its connection unless it is for copying.
    slot.finish(&mut slots);
    assert!(slots.get("slot").is_some());
    let copy = ReplicationSlot::new(&mut slots, "copy", &Lsn { lsn: 5 }, true, &address);
    copy.finish(&mut slots);
    assert!(slots.get("copy").is_none());
    let slot = ReplicationSlot::new(&mut slots, "slot", &Lsn { lsn: 5 }, false, &address);
    slot.dropped(&mut slots);
    assert!(slots.get("slot").is_none());
    assert!(slot.update_lag(&mut slots, 1).is_none());
}

#[test]
fn schema_statements_are_followed() {
    let mut statements = SchemaStatements::new();
    let user = DatabaseUser { user: "u".to_string(), database: "d".to_string() };
    let table = || StatementTable { schema: Some("s".to_string()), name: "t".to_string() };
    let index = Statement::Index { table: table(), sql: "CREATE INDEX".to_string() };
    let mut first = SchemaStatement::new(&mut statements, &user, &index, 1, SyncState::PostData);
    assert_eq!(first.task.statement.id, 0);
    assert_eq!(first.task.statement.kind, StatementKind::Index);
    assert_eq!(first.task.statement.table_name, Some("t".to_string()));
    let create = Statement::Table { table: table(), sql: "CREATE TABLE".to_string() };
    let second = SchemaStatement::new(&mut statements, &user, &create, 0, SyncState::PreData);
    assert_eq!(second.task.statement.id, 1);
    assert_eq!(second.task.statement.kind, StatementKind::Table);
    let owner = Statement::SequenceOwner { sql: "ALTER SEQUENCE".to_string() };
    let third = SchemaStatement::new(&mut statements, &user, &owner, 0, SyncState::Cutover);
    assert_eq!(third.task.statement.kind, StatementKind::Statement);
    assert_eq!(third.task.statement.table_name, None);

    first.running(&mut statements, now());
    assert!(statements.get(0).unwrap().running);
    assert_eq!(statements.get(0).unwrap().statement.started_at, Some(now()));
    first.error(&mut statements, "no space");
    let task = statements.get(0).unwrap();
    assert!(task.done && task.running);
    assert_eq!(task.error, Some("no space".to_string()));

    let last = second.finish(&mut statements);
    assert!(last.done);
    assert!(statements.get(1).is_none());
    assert!(statements.get(2).is_some());
}
