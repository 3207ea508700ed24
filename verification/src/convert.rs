//! The type conversion engine: from raw database cells to JSON values.
//!
//! A backend hands over rows whose cells are already decoded into the plain
//! [`RawValue`] model, each tagged with its column's declared [`WireType`].
//! The engine turns each cell into exactly one JSON value: SQL NULL becomes
//! JSON null (never omission), a NULL array becomes JSON null (not an empty
//! array), NULL array elements become JSON null inside the output array,
//! and a wire type outside the supported set fails the whole row.

use vstd::prelude::*;
use crate::json::{JsonValue, json_text, wf_json, is_num_char};
use crate::error::SqlError;

verus! {

/// The supported scalar wire types.
#[derive(Clone, Copy, Debug, PartialEq, Eq, Structural)]
pub enum ScalarType {
    Bool,
    Int2,
    Int4,
    Int8,
    Float4,
    Float8,
    Char,
    Varchar,
    Text,
    Json,
    Jsonb,
}

/// A column's declared wire type: a supported scalar, a one-dimensional
/// array of a supported scalar, or anything else (carrying the engine's
/// name for it, used in the error message).
#[derive(Debug, PartialEq, Eq)]
pub enum WireType {
    Scalar(ScalarType),
    Array(ScalarType),
    Other(String),
}

/// A non-NULL scalar cell value, decoded into a plain representation.
///
/// Integer widths are widened losslessly into `Int`. A floating-point cell
/// arrives as `Number`, carrying its already-rendered JSON number token
/// (the decimal rendering of a float is produced outside the verified
/// core). A native JSON cell arrives as a decoded [`JsonValue`].
#[derive(Debug, PartialEq, Eq)]
pub enum ScalarValue {
    Bool(bool),
    Int(i64),
    Number(String),
    Text(String),
    Json(JsonValue),
}

/// One raw cell: SQL NULL, a scalar, or a one-dimensional array whose
/// elements may each be NULL.
#[derive(Debug, PartialEq, Eq)]
pub enum RawValue {
    Null,
    Scalar(ScalarValue),
    Array(Vec<Option<ScalarValue>>),
}

/// A result column: its name and declared wire type.
#[derive(Debug, PartialEq, Eq)]
pub struct ColumnInfo {
    pub name: String,
    pub ty: WireType,
}

/// One result row: columns and cell values in matching positional order.
#[derive(Debug, PartialEq, Eq)]
pub struct SqlRow {
    pub columns: Vec<ColumnInfo>,
    pub values: Vec<RawValue>,
}

/// A well-formed number token in a scalar cell, and well-formed nested
/// JSON in a native JSON cell.
pub open spec fn wf_scalar(s: ScalarValue) -> bool {
    match s {
        ScalarValue::Number(t) => t@.len() > 0 && (forall|i: int|
            0 <= i < t@.len() ==> is_num_char(#[trigger] t@[i])),
        ScalarValue::Json(v) => wf_json(v),
        _ => true,
    }
}

/// Well-formedness of a raw cell: every scalar it holds is well formed.
pub open spec fn wf_raw(v: RawValue) -> bool {
    match v {
        RawValue::Null => true,
        RawValue::Scalar(s) => wf_scalar(s),
        RawValue::Array(items) => forall|i: int|
            0 <= i < items@.len() ==> ((#[trigger] items@[i]) matches Some(s) ==> wf_scalar(s)),
    }
}

impl SqlRow {
    /// Columns and values line up one to one, and every cell is well
    /// formed. Backends establish this when they materialize a row.
    pub open spec fn wf(self) -> bool {
        &&& self.columns@.len() == self.values@.len()
        &&& forall|i: int| 0 <= i < self.values@.len() ==> wf_raw(#[trigger] self.values@[i])
    }
}

/// The JSON value of one non-NULL scalar cell.
pub open spec fn scalar_to_json(s: ScalarValue) -> JsonValue {
    match s {
        ScalarValue::Bool(b) => JsonValue::Bool(b),
        ScalarValue::Int(i) => JsonValue::Int(i),
        ScalarValue::Number(t) => JsonValue::Num(t),
        ScalarValue::Text(t) => JsonValue::Str(t),
        ScalarValue::Json(v) => v,
    }
}

/// The JSON value of one array element: NULL elements become JSON null,
/// the rest convert per the scalar rule.
pub open spec fn element_to_json(e: Option<ScalarValue>) -> JsonValue {
    match e {
        None => JsonValue::Null,
        Some(s) => scalar_to_json(s),
    }
}

/// How a raw cell relates to its converted JSON value: NULL to JSON null,
/// a scalar per [`scalar_to_json`], an array element-wise.
pub open spec fn converts_to(v: RawValue, j: JsonValue) -> bool {
    match v {
        RawValue::Null => j == JsonValue::Null,
        RawValue::Scalar(s) => j == scalar_to_json(s),
        RawValue::Array(items) => j matches JsonValue::Array(out) && out@.len() == items@.len()
            && (forall|i: int| 0 <= i < items@.len() ==> out@[i] == element_to_json(
                #[trigger] items@[i],
            )),
    }
}

/// The comma-separated serialized element list of a converted array cell.
pub open spec fn elements_body_text(items: Seq<Option<ScalarValue>>) -> Seq<char>
    decreases items.len(),
{
    if items.len() == 0 {
        Seq::<char>::empty()
    } else if items.len() == 1 {
        json_text(element_to_json(items[0]))
    } else {
        elements_body_text(items.drop_last()) + seq![','] + json_text(element_to_json(items.last()))
    }
}

/// The exact JSON text a raw cell converts to. Conversion is
/// deterministic: the same cell always serializes to this text.
pub open spec fn raw_json_text(v: RawValue) -> Seq<char> {
    match v {
        RawValue::Null => "null"@,
        RawValue::Scalar(s) => json_text(scalar_to_json(s)),
        RawValue::Array(items) => seq!['['] + elements_body_text(items@) + seq![']'],
    }
}

proof fn lemma_bodies_agree(out: Seq<JsonValue>, items: Seq<Option<ScalarValue>>)
    requires
        out.len() == items.len(),
        forall|i: int| 0 <= i < items.len() ==> out[i] == element_to_json(#[trigger] items[i]),
    ensures
        crate::json::array_body_text(out) == elements_body_text(items),
    decreases items.len(),
{
    if items.len() > 1 {
        lemma_bodies_agree(out.drop_last(), items.drop_last());
    }
}

/// Any JSON value a cell converts to serializes to [`raw_json_text`] of
/// that cell: conversion determines the serialized value completely.
pub proof fn lemma_converts_text(v: RawValue, j: JsonValue)
    requires
        converts_to(v, j),
    ensures
        json_text(j) == raw_json_text(v),
{
    match v {
        RawValue::Null => {},
        RawValue::Scalar(_) => {},
        RawValue::Array(items) => {
            let out = j->Array_0;
            lemma_bodies_agree(out@, items@);
        },
    }
}

/// Converting a well-formed cell yields a well-formed JSON value.
pub proof fn lemma_converts_wf(v: RawValue, j: JsonValue)
    requires
        wf_raw(v),
        converts_to(v, j),
    ensures
        wf_json(j),
{
    match v {
        RawValue::Null => {},
        RawValue::Scalar(_) => {},
        RawValue::Array(items) => {
            let out = j->Array_0;
            assert forall|i: int| 0 <= i < out@.len() implies wf_json(#[trigger] out@[i]) by {
                assert(out@[i] == element_to_json(items@[i]));
            }
        },
    }
}

fn scalar_value_to_json(s: ScalarValue) -> (j: JsonValue)
    ensures
        j == scalar_to_json(s),
{
    match s {
        ScalarValue::Bool(b) => JsonValue::Bool(b),
        ScalarValue::Int(i) => JsonValue::Int(i),
        ScalarValue::Number(t) => JsonValue::Num(t),
        ScalarValue::Text(t) => JsonValue::Str(t),
        ScalarValue::Json(v) => v,
    }
}

fn element_value_to_json(e: Option<ScalarValue>) -> (j: JsonValue)
    ensures
        j == element_to_json(e),
{
    match e {
        None => JsonValue::Null,
        Some(s) => scalar_value_to_json(s),
    }
}

/// Converts one raw cell of a supported wire type into its JSON value.
pub fn raw_value_to_json(v: RawValue) -> (j: JsonValue)
    ensures
        converts_to(v, j),
{
    match v {
        RawValue::Null => JsonValue::Null,
        RawValue::Scalar(s) => scalar_value_to_json(s),
        RawValue::Array(mut items) => {
            let ghost items0: Seq<Option<ScalarValue>> = items@;
            let mut out: Vec<JsonValue> = Vec::new();
            while items.len() > 0
                invariant
                    out@.len() + items@.len() == items0.len(),
                    items@ == items0.skip(out@.len() as int),
                    forall|i: int| 0 <= i < out@.len() ==> out@[i] == element_to_json(
                        #[trigger] items0[i],
                    ),
                decreases items@.len(),
            {
                let ghost k: int = out@.len() as int;
                let e = items.remove(0);
                proof {
                    assert(e == items0.skip(k)[0]);
                    assert(items0.skip(k).remove(0) =~= items0.skip(k + 1));
                }
                out.push(element_value_to_json(e));
            }
            JsonValue::Array(out)
        },
    }
}

/// Converts one cell, given its column's name and wire type. The wire
/// type decides supportedness: a type outside the supported set fails
/// with the column's name and the type's name; for a supported type,
/// NULL converts to JSON null and everything else per [`converts_to`].
pub fn row_column_to_json(name: &str, ty: &WireType, v: RawValue) -> (r: Result<
    JsonValue,
    SqlError,
>)
    ensures
        match *ty {
            WireType::Other(n) => r matches Err(SqlError::UnsupportedType { column, wire_type })
                && column@ == name@ && wire_type@ == n@,
            _ => r matches Ok(j) && converts_to(v, j),
        },
        !(*ty matches WireType::Other(_)) && v == RawValue::Null ==> r == Ok::<JsonValue, SqlError>(
            JsonValue::Null,
        ),
{
    match ty {
        WireType::Other(n) => Err(
            SqlError::UnsupportedType { column: name.to_owned(), wire_type: n.clone() },
        ),
        _ => Ok(raw_value_to_json(v)),
    }
}

/// A SQL NULL cell — scalar or whole-array — converts to JSON null and
/// nothing else: never omission, never a type-specific default.
pub proof fn lemma_null_converts_to_null(j: JsonValue)
    requires
        converts_to(RawValue::Null, j),
    ensures
        j == JsonValue::Null,
{
}

/// An array cell converts element-wise: a NULL element yields JSON null
/// at its position, and a non-NULL element converts per the scalar rule.
pub proof fn lemma_array_converts_elementwise(items: Vec<Option<ScalarValue>>, j: JsonValue)
    requires
        converts_to(RawValue::Array(items), j),
    ensures
        j matches JsonValue::Array(out) && out@.len() == items@.len(),
        forall|i: int|
            0 <= i < items@.len() ==> ((#[trigger] items@[i]) matches None ==> j->Array_0@[i]
                == JsonValue::Null),
        forall|i: int|
            0 <= i < items@.len() ==> ((#[trigger] items@[i]) matches Some(s) ==> j->Array_0@[i]
                == scalar_to_json(s)),
{
}

/// Some column's wire type is outside the supported set.
pub open spec fn has_other(cols: Seq<ColumnInfo>) -> bool {
    exists|i: int| 0 <= i < cols.len() && (#[trigger] cols[i].ty) matches WireType::Other(_)
}

/// `e` is the unsupported-type error for the first unsupported column.
pub open spec fn row_error_ok(cols: Seq<ColumnInfo>, e: SqlError) -> bool {
    exists|i: int|
        {
            &&& 0 <= i < cols.len()
            &&& ((#[trigger] cols[i].ty) matches WireType::Other(n) && e matches
                SqlError::UnsupportedType { column, wire_type } && column@ == cols[i].name@
                && wire_type@ == n@)
            &&& forall|k: int| 0 <= k < i ==> !((#[trigger] cols[k].ty) matches WireType::Other(_))
        }
}

/// `cells` is the element-wise conversion of the row's values.
pub open spec fn row_cells_ok(row: SqlRow, cells: Seq<JsonValue>) -> bool {
    &&& cells.len() == row.values@.len()
    &&& forall|i: int|
        0 <= i < cells.len() ==> converts_to(row.values@[i], #[trigger] cells[i]) && wf_json(
            cells[i],
        )
}

/// `obj` is the row's JSON object: one entry per column, keyed by the
/// column names in column order, valued by the converted cells. Duplicate
/// column names are not deduplicated; the key repeats, so a JSON consumer
/// reading the text takes the last occurrence.
pub open spec fn row_object_ok(row: SqlRow, obj: JsonValue) -> bool {
    &&& obj matches JsonValue::Object(entries)
    &&& entries@.len() == row.columns@.len()
    &&& forall|i: int|
        0 <= i < entries@.len() ==> (#[trigger] entries@[i]).0@ == row.columns@[i].name@
            && converts_to(row.values@[i], entries@[i].1) && wf_json(entries@[i].1)
}

/// Converts one row into a JSON object (the row-oriented shape), or fails
/// on the first column whose wire type is unsupported.
pub fn row_to_json_map(row: SqlRow) -> (r: Result<JsonValue, SqlError>)
    requires
        row.wf(),
    ensures
        match r {
            Ok(obj) => !has_other(row.columns@) && row_object_ok(row, obj),
            Err(e) => has_other(row.columns@) && row_error_ok(row.columns@, e),
        },
{
    let SqlRow { columns, mut values } = row;
    let ghost vals0: Seq<RawValue> = values@;
    let mut entries: Vec<(String, JsonValue)> = Vec::new();
    let mut i: usize = 0;
    while i < columns.len()
        invariant
            columns@ == row.columns@,
            vals0 == row.values@,
            row.wf(),
            columns@.len() == vals0.len(),
            i == entries@.len(),
            0 <= i <= columns@.len(),
            values@ == vals0.skip(i as int),
            forall|k: int| 0 <= k < i ==> !((#[trigger] columns@[k].ty) matches WireType::Other(_)),
            forall|k: int|
                0 <= k < i ==> (#[trigger] entries@[k]).0@ == columns@[k].name@ && converts_to(
                    vals0[k],
                    entries@[k].1,
                ) && wf_json(entries@[k].1),
        decreases columns@.len() - i,
    {
        let v = values.remove(0);
        let ghost vg: RawValue = v;
        proof {
            assert(v == vals0.skip(i as int)[0]);
            assert(vals0.skip(i as int).remove(0) =~= vals0.skip(i + 1 as int));
        }
        let column = &columns[i];
        match row_column_to_json(column.name.as_str(), &column.ty, v) {
            Ok(j) => {
                proof {
                    lemma_converts_wf(vg, j);
                }
                entries.push((column.name.clone(), j));
            },
            Err(e) => {
                return Err(e);
            },
        }
        i = i + 1;
    }
    Ok(JsonValue::Object(entries))
}

/// Converts one row into the array of its cell values in column order
/// (the column-oriented shape), or fails on the first column whose wire
/// type is unsupported.
pub fn row_to_json_columns(row: SqlRow) -> (r: Result<Vec<JsonValue>, SqlError>)
    requires
        row.wf(),
    ensures
        match r {
            Ok(cells) => !has_other(row.columns@) && row_cells_ok(row, cells@),
            Err(e) => has_other(row.columns@) && row_error_ok(row.columns@, e),
        },
{
    let SqlRow { columns, mut values } = row;
    let ghost vals0: Seq<RawValue> = values@;
    let mut cells: Vec<JsonValue> = Vec::new();
    let mut i: usize = 0;
    while i < columns.len()
        invariant
            columns@ == row.columns@,
            vals0 == row.values@,
            row.wf(),
            columns@.len() == vals0.len(),
            i == cells@.len(),
            0 <= i <= columns@.len(),
            values@ == vals0.skip(i as int),
            forall|k: int| 0 <= k < i ==> !((#[trigger] columns@[k].ty) matches WireType::Other(_)),
            forall|k: int|
                0 <= k < i ==> converts_to(vals0[k], #[trigger] cells@[k]) && wf_json(cells@[k]),
        decreases columns@.len() - i,
    {
        let v = values.remove(0);
        let ghost vg: RawValue = v;
        proof {
            assert(v == vals0.skip(i as int)[0]);
            assert(vals0.skip(i as int).remove(0) =~= vals0.skip(i + 1 as int));
        }
        let column = &columns[i];
        match row_column_to_json(column.name.as_str(), &column.ty, v) {
            Ok(j) => {
                proof {
                    lemma_converts_wf(vg, j);
                }
                cells.push(j);
            },
            Err(e) => {
                return Err(e);
            },
        }
        i = i + 1;
    }
    Ok(cells)
}

/// Every row of the sequence is well formed.
pub open spec fn rows_wf(rows: Seq<SqlRow>) -> bool {
    forall|i: int| 0 <= i < rows.len() ==> (#[trigger] rows[i]).wf()
}

/// `e` is the unsupported-type error of the first failing row.
pub open spec fn rows_error_ok(rows: Seq<SqlRow>, e: SqlError) -> bool {
    exists|i: int|
        {
            &&& 0 <= i < rows.len()
            &&& has_other((#[trigger] rows[i]).columns@)
            &&& row_error_ok(rows[i].columns@, e)
            &&& forall|k: int| 0 <= k < i ==> !has_other((#[trigger] rows[k]).columns@)
        }
}

proof fn lemma_rows_error_intro(rows: Seq<SqlRow>, k: int, e: SqlError)
    requires
        0 <= k < rows.len(),
        has_other(rows[k].columns@),
        row_error_ok(rows[k].columns@, e),
        forall|j: int| 0 <= j < k ==> !has_other((#[trigger] rows[j]).columns@),
    ensures
        rows_error_ok(rows, e),
{
}

/// Converts a result set into the row-oriented shape: one JSON object per
/// row, in row order. Fails with the first row's first unsupported
/// column, converting nothing partially.
pub fn rows_to_json_maps(rows: Vec<SqlRow>) -> (r: Result<Vec<JsonValue>, SqlError>)
    requires
        rows_wf(rows@),
    ensures
        match r {
            Ok(objs) => objs@.len() == rows@.len() && (forall|i: int|
                0 <= i < rows@.len() ==> row_object_ok(rows@[i], #[trigger] objs@[i])) && (forall|
                i: int,
            |
                0 <= i < rows@.len() ==> !has_other((#[trigger] rows@[i]).columns@)),
            Err(e) => rows_error_ok(rows@, e),
        },
{
    let ghost rows0: Seq<SqlRow> = rows@;
    let mut rest = rows;
    let mut objs: Vec<JsonValue> = Vec::new();
    while rest.len() > 0
        invariant
            rows0 == rows@,
            rows_wf(rows0),
            objs@.len() + rest@.len() == rows0.len(),
            rest@ == rows0.skip(objs@.len() as int),
            forall|i: int|
                0 <= i < objs@.len() ==> row_object_ok(rows0[i], #[trigger] objs@[i])
                    && !has_other(rows0[i].columns@),
        decreases rest@.len(),
    {
        let ghost k: int = objs@.len() as int;
        let row = rest.remove(0);
        proof {
            assert(row == rows0.skip(k)[0]);
            assert(row == rows0[k]);
            assert(rows0.skip(k).remove(0) =~= rows0.skip(k + 1));
        }
        match row_to_json_map(row) {
            Ok(obj) => {
                let ghost og: JsonValue = obj;
                objs.push(obj);
                proof {
                    assert(objs@[k] == og);
                }
            },
            Err(e) => {
                proof {
                    assert(has_other(rows0[k].columns@));
                    assert forall|j: int| 0 <= j < k implies !has_other(
                        (#[trigger] rows0[j]).columns@,
                    ) by {
                        assert(row_object_ok(rows0[j], objs@[j]));
                    }
                    lemma_rows_error_intro(rows0, k, e);
                }
                return Err(e);
            },
        }
    }
    proof {
        assert forall|i: int| 0 <= i < rows0.len() implies !has_other(
            (#[trigger] rows0[i]).columns@,
        ) by {
            assert(row_object_ok(rows0[i], objs@[i]));
        }
    }
    Ok(objs)
}

/// Converts a result set into the column-oriented shape: the column names
/// (taken from the first row; empty if the result set is empty) and one
/// array of cell values per row.
pub fn rows_to_column_arrays(rows: Vec<SqlRow>) -> (r: Result<
    (Vec<String>, Vec<Vec<JsonValue>>),
    SqlError,
>)
    requires
        rows_wf(rows@),
    ensures
        match r {
            Ok(out) => {
                &&& rows@.len() == 0 ==> out.0@.len() == 0
                &&& rows@.len() > 0 ==> out.0@.len() == rows@[0].columns@.len() && (forall|j: int|
                    0 <= j < out.0@.len() ==> (#[trigger] out.0@[j])@ == rows@[0].columns@[j].name@)
                &&& out.1@.len() == rows@.len()
                &&& forall|i: int|
                    0 <= i < rows@.len() ==> row_cells_ok(rows@[i], (#[trigger] out.1@[i])@)
                &&& forall|i: int| 0 <= i < rows@.len() ==> !has_other((#[trigger] rows@[i]).columns@)
            },
            Err(e) => rows_error_ok(rows@, e),
        },
{
    let ghost rows0: Seq<SqlRow> = rows@;
    let mut names: Vec<String> = Vec::new();
    if rows.len() > 0 {
        let first = &rows[0];
        let mut j: usize = 0;
        while j < first.columns.len()
            invariant
                rows0 == rows@,
                rows0.len() > 0,
                first == rows0[0],
                j == names@.len(),
                0 <= j <= first.columns@.len(),
                forall|t: int|
                    0 <= t < j ==> (#[trigger] names@[t])@ == first.columns@[t].name@,
            decreases first.columns@.len() - j,
        {
            names.push(first.columns[j].name.clone());
            j = j + 1;
        }
    }
    let mut rest = rows;
    let mut arrays: Vec<Vec<JsonValue>> = Vec::new();
    while rest.len() > 0
        invariant
            rows0 == rows@,
            rows_wf(rows0),
            arrays@.len() + rest@.len() == rows0.len(),
            rest@ == rows0.skip(arrays@.len() as int),
            forall|i: int|
                0 <= i < arrays@.len() ==> row_cells_ok(rows0[i], (#[trigger] arrays@[i])@)
                    && !has_other(rows0[i].columns@),
        decreases rest@.len(),
    {
        let ghost k: int = arrays@.len() as int;
        let row = rest.remove(0);
        proof {
            assert(row == rows0.skip(k)[0]);
            assert(row == rows0[k]);
            assert(rows0.skip(k).remove(0) =~= rows0.skip(k + 1));
        }
        match row_to_json_columns(row) {
            Ok(cells) => {
                let ghost cg: Vec<JsonValue> = cells;
                arrays.push(cells);
                proof {
                    assert(arrays@[k] == cg);
                }
            },
            Err(e) => {
                proof {
                    assert(has_other(rows0[k].columns@));
                    assert forall|j: int| 0 <= j < k implies !has_other(
                        (#[trigger] rows0[j]).columns@,
                    ) by {
                        assert(row_cells_ok(rows0[j], arrays@[j]@));
                    }
                    lemma_rows_error_intro(rows0, k, e);
                }
                return Err(e);
            },
        }
    }
    proof {
        assert forall|i: int| 0 <= i < rows0.len() implies !has_other(
            (#[trigger] rows0[i]).columns@,
        ) by {
            assert(row_cells_ok(rows0[i], arrays@[i]@));
        }
    }
    Ok((names, arrays))
}

/// The serialized `"name":value` member one column contributes to its
/// row's object.
pub open spec fn row_entry_text(c: ColumnInfo, v: RawValue) -> Seq<char> {
    seq!['"'] + crate::json::escaped_text(c.name@) + seq!['"', ':'] + raw_json_text(v)
}

/// The comma-separated member list of a row's JSON object.
pub open spec fn row_entries_text(cols: Seq<ColumnInfo>, vals: Seq<RawValue>) -> Seq<char>
    decreases cols.len(),
{
    if cols.len() == 0 {
        Seq::<char>::empty()
    } else if cols.len() == 1 {
        row_entry_text(cols[0], vals[0])
    } else {
        row_entries_text(cols.drop_last(), vals.drop_last()) + seq![','] + row_entry_text(
            cols.last(),
            vals.last(),
        )
    }
}

/// The exact JSON object text of a row: keys in column order, values per
/// [`raw_json_text`].
pub open spec fn row_object_text(row: SqlRow) -> Seq<char> {
    seq!['{'] + row_entries_text(row.columns@, row.values@) + seq!['}']
}

/// The comma-separated element list of a row's value array.
pub open spec fn row_cells_body_text(vals: Seq<RawValue>) -> Seq<char>
    decreases vals.len(),
{
    if vals.len() == 0 {
        Seq::<char>::empty()
    } else if vals.len() == 1 {
        raw_json_text(vals[0])
    } else {
        row_cells_body_text(vals.drop_last()) + seq![','] + raw_json_text(vals.last())
    }
}

/// The exact JSON array text of a row's values, in column order.
pub open spec fn row_array_text(row: SqlRow) -> Seq<char> {
    seq!['['] + row_cells_body_text(row.values@) + seq![']']
}

proof fn lemma_entries_text(
    cols: Seq<ColumnInfo>,
    vals: Seq<RawValue>,
    entries: Seq<(String, JsonValue)>,
)
    requires
        cols.len() == vals.len(),
        entries.len() == cols.len(),
        forall|i: int|
            0 <= i < entries.len() ==> (#[trigger] entries[i]).0@ == cols[i].name@ && converts_to(
                vals[i],
                entries[i].1,
            ),
    ensures
        crate::json::object_body_text(entries) == row_entries_text(cols, vals),
    decreases cols.len(),
{
    if cols.len() == 1 {
        lemma_converts_text(vals[0], entries[0].1);
        assert(entries[0].0@ == cols[0].name@);
        assert(crate::json::entry_text(entries[0]) == row_entry_text(cols[0], vals[0]));
    } else if cols.len() > 1 {
        lemma_entries_text(cols.drop_last(), vals.drop_last(), entries.drop_last());
        assert(entries.last() == entries[entries.len() - 1]);
        lemma_converts_text(vals.last(), entries.last().1);
        assert(entries.last().0@ == cols.last().name@);
        assert(crate::json::entry_text(entries.last()) == row_entry_text(cols.last(), vals.last()));
    }
}

/// The object a row converts to serializes to exactly
/// [`row_object_text`] of the row.
pub proof fn lemma_object_text(row: SqlRow, obj: JsonValue)
    requires
        row.columns@.len() == row.values@.len(),
        row_object_ok(row, obj),
    ensures
        json_text(obj) == row_object_text(row),
{
    lemma_entries_text(row.columns@, row.values@, obj->Object_0@);
}

proof fn lemma_cells_body(vals: Seq<RawValue>, cells: Seq<JsonValue>)
    requires
        cells.len() == vals.len(),
        forall|i: int| 0 <= i < cells.len() ==> converts_to(vals[i], #[trigger] cells[i]),
    ensures
        crate::json::array_body_text(cells) == row_cells_body_text(vals),
    decreases vals.len(),
{
    if vals.len() == 1 {
        lemma_converts_text(vals[0], cells[0]);
    } else if vals.len() > 1 {
        lemma_cells_body(vals.drop_last(), cells.drop_last());
        lemma_converts_text(vals.last(), cells.last());
        assert(cells.last() == cells[cells.len() - 1]);
    }
}

/// The cell array a row converts to serializes to exactly
/// [`row_array_text`] of the row.
pub proof fn lemma_cells_text(row: SqlRow, cells: Seq<JsonValue>)
    requires
        row_cells_ok(row, cells),
    ensures
        seq!['['] + crate::json::array_body_text(cells) + seq![']'] == row_array_text(row),
{
    lemma_cells_body(row.values@, cells);
}

/// The row-oriented and the column-oriented conversion of the same row
/// carry the same values in the same order: entry `i` of the object
/// serializes to the same JSON text as cell `i` of the array, and entry
/// `i`'s key is column `i`'s name. The two shapes differ only in their
/// document structure.
pub proof fn lemma_row_shapes_agree(row: SqlRow, obj: JsonValue, cells: Seq<JsonValue>)
    requires
        row.wf(),
        row_object_ok(row, obj),
        row_cells_ok(row, cells),
    ensures
        obj->Object_0@.len() == cells.len(),
        forall|i: int|
            0 <= i < cells.len() ==> json_text((#[trigger] obj->Object_0@[i]).1) == json_text(
                cells[i],
            ) && obj->Object_0@[i].0@ == row.columns@[i].name@,
{
    let entries = obj->Object_0@;
    assert forall|i: int| 0 <= i < cells.len() implies json_text((#[trigger] entries[i]).1)
        == json_text(cells[i]) && entries[i].0@ == row.columns@[i].name@ by {
        lemma_converts_text(row.values@[i], entries[i].1);
        lemma_converts_text(row.values@[i], cells[i]);
    }
}

/// The whole-result-set form of [`lemma_row_shapes_agree`]: the
/// row-oriented output and the column-oriented output of the same result
/// set carry the same values in the same row and column order.
pub proof fn lemma_result_shapes_agree(
    rows: Seq<SqlRow>,
    objs: Seq<JsonValue>,
    arrays: Seq<Vec<JsonValue>>,
)
    requires
        rows_wf(rows),
        objs.len() == rows.len(),
        arrays.len() == rows.len(),
        forall|i: int| 0 <= i < rows.len() ==> row_object_ok(rows[i], #[trigger] objs[i]),
        forall|i: int| 0 <= i < rows.len() ==> row_cells_ok(rows[i], (#[trigger] arrays[i])@),
    ensures
        forall|i: int|
            0 <= i < rows.len() ==> (#[trigger] objs[i])->Object_0@.len() == arrays[i]@.len(),
        forall|i: int, j: int|
            0 <= i < rows.len() && 0 <= j < arrays[i]@.len() ==> json_text(
                (#[trigger] objs[i]->Object_0@[j]).1,
            ) == json_text(#[trigger] arrays[i]@[j]),
{
    assert forall|i: int| 0 <= i < rows.len() implies (#[trigger] objs[i])->Object_0@.len()
        == arrays[i]@.len() by {
        lemma_row_shapes_agree(rows[i], objs[i], arrays[i]@);
    }
    assert forall|i: int, j: int|
        0 <= i < rows.len() && 0 <= j < arrays[i]@.len() implies json_text(
        (#[trigger] objs[i]->Object_0@[j]).1,
    ) == json_text(#[trigger] arrays[i]@[j]) by {
        lemma_row_shapes_agree(rows[i], objs[i], arrays[i]@);
    }
}

} // verus!
