use mesagrid_core::connection::test_connection_request;
use mesagrid_core::schema::{
    collect_table_rows, mysql_tables_query, postgres_tables_query, table_info_from_parts,
};
use mesagrid_core::text::{build_connection_string, str_eq, u16_to_decimal};
use mesagrid_core::types::{DatabaseType, TestConnectionParams};

#[test]
fn postgres_connection_string_format() {
    let s = build_connection_string(DatabaseType::Postgres, "localhost", 5432, "app", "u", "p");
    assert_eq!(s, "postgres://u:p@localhost:5432/app");
}

#[test]
fn mysql_connection_string_format() {
    let s = build_connection_string(DatabaseType::Mysql, "db.example", 3306, "shop", "root", "s3");
    assert_eq!(s, "mysql://root:s3@db.example:3306/shop");
}

#[test]
fn test_request_uses_supplied_parameters() {
    let params = TestConnectionParams {
        db_type: DatabaseType::Postgres,
        host: "localhost".to_string(),
        port: 5432,
        database: "app".to_string(),
        username: "u".to_string(),
        password: "p".to_string(),
    };
    let (kind, conn) = test_connection_request(&params);
    assert!(matches!(kind, DatabaseType::Postgres));
    assert_eq!(conn, "postgres://u:p@localhost:5432/app");
}

#[test]
fn decimal_rendering() {
    assert_eq!(u16_to_decimal(0), "0");
    assert_eq!(u16_to_decimal(7), "7");
    assert_eq!(u16_to_decimal(5432), "5432");
    assert_eq!(u16_to_decimal(65535), "65535");
}

#[test]
fn str_eq_agrees_with_equality() {
    assert!(str_eq("abc", "abc"));
    assert!(!str_eq("abc", "abd"));
    assert!(!str_eq("abc", "ab"));
    assert!(str_eq("", ""));
}

#[test]
fn view_rows_map_to_view_kind() {
    let t = table_info_from_parts(
        Some("v_orders".to_string()),
        Some("public".to_string()),
        Some("VIEW".to_string()),
    );
    assert_eq!(t.name, "v_orders");
    assert_eq!(t.schema, "public");
    assert_eq!(t.table_type, "view");
    assert!(t.row_count.is_none());
}

#[test]
fn base_table_rows_map_to_table_kind() {
    let t = table_info_from_parts(
        Some("orders".to_string()),
        Some("public".to_string()),
        Some("BASE TABLE".to_string()),
    );
    assert_eq!(t.table_type, "table");
}

#[test]
fn missing_catalog_fields_default() {
    let t = table_info_from_parts(None, None, None);
    assert_eq!(t.name, "");
    assert_eq!(t.schema, "");
    assert_eq!(t.table_type, "table");
}

#[test]
fn collected_tables_keep_order() {
    let rows = vec![
        (Some("a".to_string()), Some("public".to_string()), Some("BASE TABLE".to_string())),
        (Some("b".to_string()), Some("public".to_string()), Some("VIEW".to_string())),
    ];
    let ts = collect_table_rows(rows);
    assert_eq!(ts.len(), 2);
    assert_eq!(ts[0].name, "a");
    assert_eq!(ts[0].table_type, "table");
    assert_eq!(ts[1].name, "b");
    assert_eq!(ts[1].table_type, "view");
}

#[test]
fn catalog_queries_target_information_schema() {
    let pg = postgres_tables_query();
    assert!(pg.contains("information_schema.tables"));
    assert!(pg.contains("pg_catalog"));
    assert!(pg.contains("ORDER BY table_schema, table_name"));
    let my = mysql_tables_query();
    assert!(my.contains("information_schema.tables"));
    assert!(my.contains("TABLE_SCHEMA = ?"));
    assert!(my.contains("ORDER BY TABLE_NAME"));
}
