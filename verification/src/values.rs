use vstd::prelude::*;
use crate::types::{CellValue, ColumnInfo, QueryResult, RowField};

verus! {

/// Outcome of one typed extraction attempt against a native cell: the
/// driver refused the type, yielded SQL null, or yielded a value.
pub enum Probe<T> {
    Failed,
    Null,
    Value(T),
}

/// The probe outcomes for one cell, in the fixed order the normalizer
/// consults them: 64-bit integer, 32-bit integer, 64-bit float (as IEEE
/// bits), boolean, text. Integers come before the float so whole numbers
/// never render fractionally; boolean and text come after the numerics so
/// numeric text is not mistaken for them.
pub struct CellProbes {
    pub int64: Probe<i64>,
    pub int32: Probe<i32>,
    pub float64: Probe<u64>,
    pub boolean: Probe<bool>,
    pub text: Probe<String>,
}

/// A 64-bit IEEE bit pattern denotes a finite number exactly when its
/// exponent bits are not all ones.
pub open spec fn spec_float_bits_finite(bits: u64) -> bool {
    (bits >> 52) & 0x7ff != 0x7ff
}

/// Whether an IEEE bit pattern denotes a finite number.
pub fn float_bits_finite(bits: u64) -> (r: bool)
    ensures
        r == spec_float_bits_finite(bits),
{
    (bits >> 52) & 0x7ff != 0x7ff
}

/// The normalization rule: the first probe that did not fail wins and the
/// rest are ignored; SQL null wins as null; a non-finite float becomes
/// null; a cell every probe failed on becomes null.
pub open spec fn spec_normalize(p: CellProbes) -> CellValue {
    if !(p.int64 is Failed) {
        match p.int64 {
            Probe::Value(n) => CellValue::Int(n),
            _ => CellValue::Null,
        }
    } else if !(p.int32 is Failed) {
        match p.int32 {
            Probe::Value(n) => CellValue::Int(n as i64),
            _ => CellValue::Null,
        }
    } else if !(p.float64 is Failed) {
        match p.float64 {
            Probe::Value(bits) => if spec_float_bits_finite(bits) {
                CellValue::Float(bits)
            } else {
                CellValue::Null
            },
            _ => CellValue::Null,
        }
    } else if !(p.boolean is Failed) {
        match p.boolean {
            Probe::Value(b) => CellValue::Bool(b),
            _ => CellValue::Null,
        }
    } else if !(p.text is Failed) {
        match p.text {
            Probe::Value(s) => CellValue::Text(s),
            _ => CellValue::Null,
        }
    } else {
        CellValue::Null
    }
}

/// Normalizes one cell from its probe outcomes, by the fixed rule of
/// `spec_normalize`.
pub fn normalize_cell(p: &CellProbes) -> (v: CellValue)
    ensures
        v == spec_normalize(*p),
{
    match &p.int64 {
        Probe::Value(n) => {
            return CellValue::Int(*n);
        },
        Probe::Null => {
            return CellValue::Null;
        },
        Probe::Failed => {},
    }
    match &p.int32 {
        Probe::Value(n) => {
            return CellValue::Int(*n as i64);
        },
        Probe::Null => {
            return CellValue::Null;
        },
        Probe::Failed => {},
    }
    match &p.float64 {
        Probe::Value(bits) => {
            if float_bits_finite(*bits) {
                return CellValue::Float(*bits);
            } else {
                return CellValue::Null;
            }
        },
        Probe::Null => {
            return CellValue::Null;
        },
        Probe::Failed => {},
    }
    match &p.boolean {
        Probe::Value(b) => {
            return CellValue::Bool(*b);
        },
        Probe::Null => {
            return CellValue::Null;
        },
        Probe::Failed => {},
    }
    match &p.text {
        Probe::Value(s) => {
            return CellValue::Text(s.clone());
        },
        Probe::Null => {
            return CellValue::Null;
        },
        Probe::Failed => {},
    }
    CellValue::Null
}

/// Shapes a fetched result into the engine-agnostic form: one ColumnInfo
/// per reported column (nullability reported as always-true, advisory
/// only), one row of named normalized values per fetched row, in order. A
/// result of zero rows keeps empty columns and rows, by design: the driver
/// reports no metadata then.
pub fn build_query_result(
    columns: &Vec<(String, String)>,
    rows: &Vec<Vec<CellProbes>>,
    elapsed_ms: u128,
) -> (q: QueryResult)
    ensures
        q.execution_time_ms == elapsed_ms,
        q.rows@.len() == rows@.len(),
        q.row_count == rows@.len(),
        rows@.len() == 0 ==> q.columns@.len() == 0,
        rows@.len() > 0 ==> q.columns@.len() == columns@.len(),
        forall|j: int|
            #![trigger q.columns@[j]]
            0 <= j < q.columns@.len() ==> q.columns@[j].name@ == columns@[j].0@
                && q.columns@[j].data_type@ == columns@[j].1@ && q.columns@[j].nullable == true,
        forall|i: int| #![trigger q.rows@[i]] 0 <= i < q.rows@.len() ==> q.rows@[i]@.len() == q.columns@.len(),
        forall|i: int, j: int|
            #![trigger q.rows@[i]@[j]]
            0 <= i < q.rows@.len() && 0 <= j < q.rows@[i]@.len() ==> q.rows@[i]@[j].column@
                == columns@[j].0@ && q.rows@[i]@[j].value == (if j < rows@[i]@.len() {
                spec_normalize(rows@[i]@[j])
            } else {
                CellValue::Null
            }),
{
    if rows.len() == 0 {
        return QueryResult {
            columns: Vec::new(),
            rows: Vec::new(),
            row_count: 0,
            execution_time_ms: elapsed_ms,
        };
    }
    let mut cols: Vec<ColumnInfo> = Vec::new();
    let mut j: usize = 0;
    while j < columns.len()
        invariant
            j <= columns.len(),
            cols@.len() == j,
            forall|k: int|
                #![trigger cols@[k]]
                0 <= k < j ==> cols@[k].name@ == columns@[k].0@ && cols@[k].data_type@
                    == columns@[k].1@ && cols@[k].nullable == true,
        decreases columns.len() - j,
    {
        cols.push(
            ColumnInfo {
                name: columns[j].0.clone(),
                data_type: columns[j].1.clone(),
                nullable: true,
            },
        );
        j = j + 1;
    }
    let mut out: Vec<Vec<RowField>> = Vec::new();
    let mut i: usize = 0;
    while i < rows.len()
        invariant
            i <= rows.len(),
            out@.len() == i,
            cols@.len() == columns@.len(),
            forall|k: int|
                #![trigger cols@[k]]
                0 <= k < cols@.len() ==> cols@[k].name@ == columns@[k].0@
                    && cols@[k].data_type@ == columns@[k].1@ && cols@[k].nullable == true,
            forall|a: int| #![trigger out@[a]] 0 <= a < i ==> out@[a]@.len() == cols@.len(),
            forall|a: int, b: int|
                #![trigger out@[a]@[b]]
                0 <= a < i && 0 <= b < out@[a]@.len() ==> out@[a]@[b].column@
                    == columns@[b].0@ && out@[a]@[b].value == (if b < rows@[a]@.len() {
                    spec_normalize(rows@[a]@[b])
                } else {
                    CellValue::Null
                }),
        decreases rows.len() - i,
    {
        let mut fields: Vec<RowField> = Vec::new();
        let mut b: usize = 0;
        while b < cols.len()
            invariant
                b <= cols.len(),
                fields@.len() == b,
                i < rows@.len(),
                cols@.len() == columns@.len(),
                forall|k: int|
                    #![trigger fields@[k]]
                    0 <= k < fields@.len() ==> fields@[k].column@ == columns@[k].0@
                        && fields@[k].value == (if k < rows@[i as int]@.len() {
                        spec_normalize(rows@[i as int]@[k])
                    } else {
                        CellValue::Null
                    }),
            decreases cols.len() - b,
        {
            let row = &rows[i];
            let value = if b < row.len() {
                normalize_cell(&row[b])
            } else {
                CellValue::Null
            };
            fields.push(RowField { column: columns[b].0.clone(), value });
            b = b + 1;
        }
        out.push(fields);
        i = i + 1;
    }
    let count = out.len();
    QueryResult { columns: cols, rows: out, row_count: count, execution_time_ms: elapsed_ms }
}

} // verus!
