use mesagrid_core::types::CellValue;
use mesagrid_core::values::{build_query_result, normalize_cell, CellProbes, Probe};

fn all_failed() -> CellProbes {
    CellProbes {
        int64: Probe::Failed,
        int32: Probe::Failed,
        float64: Probe::Failed,
        boolean: Probe::Failed,
        text: Probe::Failed,
    }
}

#[test]
fn normalization_round_trip_preserves_types_and_order() {
    // one row: int64 42, float 3.14, boolean true, text "hi", null
    let cells = vec![
        CellProbes { int64: Probe::Value(42), ..all_failed() },
        CellProbes { float64: Probe::Value(3.14f64.to_bits()), ..all_failed() },
        CellProbes { boolean: Probe::Value(true), ..all_failed() },
        CellProbes { text: Probe::Value("hi".to_string()), ..all_failed() },
        CellProbes { int64: Probe::Null, ..all_failed() },
    ];
    let columns = vec![
        ("a".to_string(), "int8".to_string()),
        ("b".to_string(), "float8".to_string()),
        ("c".to_string(), "bool".to_string()),
        ("d".to_string(), "text".to_string()),
        ("e".to_string(), "text".to_string()),
    ];
    let q = build_query_result(&columns, &vec![cells], 12);
    assert_eq!(q.row_count, 1);
    assert_eq!(q.execution_time_ms, 12);
    assert_eq!(q.columns.len(), 5);
    let row = &q.rows[0];
    assert_eq!(row.len(), 5);
    assert!(matches!(row[0].value, CellValue::Int(42)));
    match row[1].value {
        CellValue::Float(bits) => assert_eq!(f64::from_bits(bits), 3.14),
        _ => panic!("expected a float"),
    }
    assert!(matches!(row[2].value, CellValue::Bool(true)));
    match &row[3].value {
        CellValue::Text(s) => assert_eq!(s, "hi"),
        _ => panic!("expected text"),
    }
    assert!(matches!(row[4].value, CellValue::Null));
    // names follow the column order
    let names: Vec<&str> = row.iter().map(|f| f.column.as_str()).collect();
    assert_eq!(names, ["a", "b", "c", "d", "e"]);
}

#[test]
fn first_successful_probe_wins() {
    let p = CellProbes {
        int64: Probe::Value(7),
        int32: Probe::Value(8),
        text: Probe::Value("9".to_string()),
        ..all_failed()
    };
    assert!(matches!(normalize_cell(&p), CellValue::Int(7)));
}

#[test]
fn int32_probe_widens() {
    let p = CellProbes { int32: Probe::Value(-5), ..all_failed() };
    assert!(matches!(normalize_cell(&p), CellValue::Int(-5)));
}

#[test]
fn sql_null_wins_over_later_probes() {
    let p = CellProbes { int64: Probe::Null, text: Probe::Value("x".to_string()), ..all_failed() };
    assert!(matches!(normalize_cell(&p), CellValue::Null));
}

#[test]
fn non_finite_float_becomes_null() {
    let p = CellProbes { float64: Probe::Value(f64::NAN.to_bits()), ..all_failed() };
    assert!(matches!(normalize_cell(&p), CellValue::Null));
    let p = CellProbes { float64: Probe::Value(f64::INFINITY.to_bits()), ..all_failed() };
    assert!(matches!(normalize_cell(&p), CellValue::Null));
}

#[test]
fn cell_no_probe_succeeds_becomes_null() {
    assert!(matches!(normalize_cell(&all_failed()), CellValue::Null));
}

#[test]
fn zero_rows_give_empty_result_not_error() {
    let columns = vec![("a".to_string(), "int8".to_string())];
    let q = build_query_result(&columns, &Vec::new(), 3);
    assert_eq!(q.row_count, 0);
    assert!(q.columns.is_empty());
    assert!(q.rows.is_empty());
    assert_eq!(q.execution_time_ms, 3);
}

#[test]
fn select_one_scenario_shape() {
    // the shape of `SELECT 1 AS one`: one int column, one row
    let columns = vec![("one".to_string(), "int4".to_string())];
    let rows = vec![vec![CellProbes { int32: Probe::Value(1), ..all_failed() }]];
    let q = build_query_result(&columns, &rows, 1);
    assert_eq!(q.row_count, 1);
    assert_eq!(q.columns.len(), 1);
    assert_eq!(q.columns[0].name, "one");
    assert_eq!(q.columns[0].data_type, "int4");
    assert!(q.columns[0].nullable);
    assert_eq!(q.rows[0][0].column, "one");
    assert!(matches!(q.rows[0][0].value, CellValue::Int(1)));
}
