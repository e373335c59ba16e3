use vstd::prelude::*;
use crate::text::str_eq;
use crate::types::TableInfo;

verus! {

/// The catalog query of the Postgres family: every table and view outside
/// the system schemas, ordered by schema then table name.
pub open spec fn postgres_tables_sql() -> Seq<char> {
    "SELECT table_name as name, table_schema as schema, table_type as type FROM information_schema.tables WHERE table_schema NOT IN ('pg_catalog', 'information_schema') ORDER BY table_schema, table_name"@
}

/// The catalog query of the Postgres family.
pub fn postgres_tables_query() -> (s: &'static str)
    ensures
        s@ == postgres_tables_sql(),
{
    "SELECT table_name as name, table_schema as schema, table_type as type FROM information_schema.tables WHERE table_schema NOT IN ('pg_catalog', 'information_schema') ORDER BY table_schema, table_name"
}

/// The catalog query of the MySQL family: every table and view of exactly
/// the configured database (bound to the one parameter), ordered by table
/// name.
pub open spec fn mysql_tables_sql() -> Seq<char> {
    "SELECT TABLE_NAME as name, TABLE_SCHEMA as `schema`, TABLE_TYPE as type FROM information_schema.tables WHERE TABLE_SCHEMA = ? ORDER BY TABLE_NAME"@
}

/// The catalog query of the MySQL family.
pub fn mysql_tables_query() -> (s: &'static str)
    ensures
        s@ == mysql_tables_sql(),
{
    "SELECT TABLE_NAME as name, TABLE_SCHEMA as `schema`, TABLE_TYPE as type FROM information_schema.tables WHERE TABLE_SCHEMA = ? ORDER BY TABLE_NAME"
}

/// The uniform table kind: the driver's "VIEW" maps to "view", anything
/// else (a missing value included) to "table".
pub open spec fn spec_table_kind(kind: Option<Seq<char>>) -> Seq<char> {
    match kind {
        Some(k) => if k == "VIEW"@ {
            "view"@
        } else {
            "table"@
        },
        None => "table"@,
    }
}

/// What one uniform table entry holds, given the three raw catalog fields
/// (a missing name or schema defaults to empty; the row count is reserved
/// and always unset).
pub open spec fn spec_table_info_matches(
    t: TableInfo,
    parts: (Option<String>, Option<String>, Option<String>),
) -> bool {
    &&& t.name@ == (match parts.0 {
        Some(s) => s@,
        None => Seq::<char>::empty(),
    })
    &&& t.schema@ == (match parts.1 {
        Some(s) => s@,
        None => Seq::<char>::empty(),
    })
    &&& t.table_type@ == spec_table_kind(
        match parts.2 {
            Some(k) => Some(k@),
            None => None,
        },
    )
    &&& t.row_count is None
}

/// Builds one uniform table entry from the three raw catalog fields.
pub fn table_info_from_parts(
    name: Option<String>,
    schema: Option<String>,
    kind: Option<String>,
) -> (t: TableInfo)
    ensures
        spec_table_info_matches(t, (name, schema, kind)),
{
    let name_s = match name {
        Some(s) => s,
        None => String::new(),
    };
    let schema_s = match schema {
        Some(s) => s,
        None => String::new(),
    };
    let is_view = match &kind {
        Some(k) => str_eq(k.as_str(), "VIEW"),
        None => false,
    };
    let table_type = if is_view {
        String::from_str("view")
    } else {
        String::from_str("table")
    };
    TableInfo { name: name_s, schema: schema_s, table_type, row_count: None }
}

/// Declares the Postgres driver's row type. A row is opaque here; it is
/// read only through the trusted getters below.
#[verifier::external_type_specification]
#[verifier::external_body]
pub struct ExPgRow(sqlx::postgres::PgRow);

/// Declares the MySQL driver's row type.
#[verifier::external_type_specification]
#[verifier::external_body]
pub struct ExMySqlRow(sqlx::mysql::MySqlRow);

/// Relies on sqlx::Row::try_get on a Postgres row: the named column as
/// text, or nothing when it is absent or not text.
#[verifier::external_body]
fn pg_get_string(row: &sqlx::postgres::PgRow, column: &str) -> Option<String> {
    sqlx::Row::try_get::<String, &str>(row, column).ok()
}

/// Relies on sqlx::Row::try_get on a MySQL row: the named column as text,
/// or nothing when it is absent or not text.
#[verifier::external_body]
fn mysql_get_string(row: &sqlx::mysql::MySqlRow, column: &str) -> Option<String> {
    sqlx::Row::try_get::<String, &str>(row, column).ok()
}

/// Maps a fetched Postgres catalog result to uniform table entries, one
/// per row in order, each with its reserved row count unset and its kind
/// mapped to "view" or "table".
pub fn collect_postgres_tables(rows: &Vec<sqlx::postgres::PgRow>) -> (ts: Vec<TableInfo>)
    ensures
        ts@.len() == rows@.len(),
        forall|i: int|
            #![trigger ts@[i]]
            0 <= i < ts@.len() ==> ts@[i].row_count is None && (ts@[i].table_type@ == "view"@
                || ts@[i].table_type@ == "table"@),
{
    let mut parts: Vec<(Option<String>, Option<String>, Option<String>)> = Vec::new();
    let mut i: usize = 0;
    while i < rows.len()
        invariant
            i <= rows.len(),
            parts@.len() == i,
        decreases rows.len() - i,
    {
        let row = &rows[i];
        parts.push(
            (pg_get_string(row, "name"), pg_get_string(row, "schema"), pg_get_string(row, "type")),
        );
        i = i + 1;
    }
    let ghost parts_view = parts@;
    let ts = collect_table_rows(parts);
    proof {
        assert forall|k: int| 0 <= k < ts@.len() implies #[trigger] ts@[k].row_count is None && (
        ts@[k].table_type@ == "view"@ || ts@[k].table_type@ == "table"@) by {
            assert(spec_table_info_matches(ts@[k], parts_view[k]));
        }
    }
    ts
}

/// Maps a fetched MySQL catalog result to uniform table entries, one per
/// row in order, each with its reserved row count unset and its kind
/// mapped to "view" or "table".
pub fn collect_mysql_tables(rows: &Vec<sqlx::mysql::MySqlRow>) -> (ts: Vec<TableInfo>)
    ensures
        ts@.len() == rows@.len(),
        forall|i: int|
            #![trigger ts@[i]]
            0 <= i < ts@.len() ==> ts@[i].row_count is None && (ts@[i].table_type@ == "view"@
                || ts@[i].table_type@ == "table"@),
{
    let mut parts: Vec<(Option<String>, Option<String>, Option<String>)> = Vec::new();
    let mut i: usize = 0;
    while i < rows.len()
        invariant
            i <= rows.len(),
            parts@.len() == i,
        decreases rows.len() - i,
    {
        let row = &rows[i];
        parts.push(
            (mysql_get_string(row, "name"), mysql_get_string(row, "schema"), mysql_get_string(row, "type")),
        );
        i = i + 1;
    }
    let ghost parts_view = parts@;
    let ts = collect_table_rows(parts);
    proof {
        assert forall|k: int| 0 <= k < ts@.len() implies #[trigger] ts@[k].row_count is None && (
        ts@[k].table_type@ == "view"@ || ts@[k].table_type@ == "table"@) by {
            assert(spec_table_info_matches(ts@[k], parts_view[k]));
        }
    }
    ts
}

/// Maps every catalog row, already read into its three raw fields, to its
/// uniform table entry, in order.
pub fn collect_table_rows(rows: Vec<(Option<String>, Option<String>, Option<String>)>) -> (ts: Vec<
    TableInfo,
>)
    ensures
        ts@.len() == rows@.len(),
        forall|i: int|
            0 <= i < ts@.len() ==> #[trigger] spec_table_info_matches(ts@[i], rows@[i]),
{
    let ghost orig = rows@;
    let mut rest = rows;
    let mut ts: Vec<TableInfo> = Vec::new();
    while rest.len() > 0
        invariant
            ts@.len() + rest@.len() == orig.len(),
            rest@ == orig.subrange(ts@.len() as int, orig.len() as int),
            forall|i: int|
                0 <= i < ts@.len() ==> #[trigger] spec_table_info_matches(ts@[i], orig[i]),
        decreases rest.len(),
    {
        let (name, schema, kind) = rest.remove(0);
        let t = table_info_from_parts(name, schema, kind);
        ts.push(t);
        proof {
            assert(rest@ =~= orig.subrange(ts@.len() as int, orig.len() as int));
        }
    }
    ts
}

} // verus!
