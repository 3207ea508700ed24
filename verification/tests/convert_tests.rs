use daprox::convert::{
    row_column_to_json, row_to_json_columns, row_to_json_map, rows_to_column_arrays,
    rows_to_json_maps, ColumnInfo, RawValue, ScalarType, ScalarValue, SqlRow, WireType,
};
use daprox::error::SqlError;
use daprox::json::JsonValue;

fn s(v: &str) -> String {
    v.to_string()
}

fn scalar_types() -> Vec<ScalarType> {
    vec![
        ScalarType::Bool,
        ScalarType::Int2,
        ScalarType::Int4,
        ScalarType::Int8,
        ScalarType::Float4,
        ScalarType::Float8,
        ScalarType::Char,
        ScalarType::Varchar,
        ScalarType::Text,
        ScalarType::Json,
        ScalarType::Jsonb,
    ]
}

#[test]
fn null_converts_to_json_null_for_every_scalar_type() {
    for st in scalar_types() {
        let r = row_column_to_json("c", &WireType::Scalar(st), RawValue::Null);
        assert_eq!(r.unwrap(), JsonValue::Null);
    }
}

#[test]
fn null_array_converts_to_json_null_for_every_array_type() {
    for st in scalar_types() {
        let r = row_column_to_json("c", &WireType::Array(st), RawValue::Null);
        assert_eq!(r.unwrap(), JsonValue::Null);
    }
}

#[test]
fn array_with_null_elements_converts_elementwise() {
    let cell = RawValue::Array(vec![
        Some(ScalarValue::Int(1)),
        None,
        Some(ScalarValue::Int(3)),
    ]);
    let r = row_column_to_json("c", &WireType::Array(ScalarType::Int4), cell);
    assert_eq!(
        r.unwrap(),
        JsonValue::Array(vec![JsonValue::Int(1), JsonValue::Null, JsonValue::Int(3)])
    );
}

#[test]
fn scalar_values_convert_by_kind() {
    let r = row_column_to_json("c", &WireType::Scalar(ScalarType::Bool), RawValue::Scalar(ScalarValue::Bool(true)));
    assert_eq!(r.unwrap(), JsonValue::Bool(true));
    let r = row_column_to_json("c", &WireType::Scalar(ScalarType::Int8), RawValue::Scalar(ScalarValue::Int(-42)));
    assert_eq!(r.unwrap(), JsonValue::Int(-42));
    let r = row_column_to_json("c", &WireType::Scalar(ScalarType::Text), RawValue::Scalar(ScalarValue::Text(s("hi"))));
    assert_eq!(r.unwrap(), JsonValue::Str(s("hi")));
    let r = row_column_to_json("c", &WireType::Scalar(ScalarType::Float8), RawValue::Scalar(ScalarValue::Number(s("1.5"))));
    assert_eq!(r.unwrap(), JsonValue::Num(s("1.5")));
    let nested = JsonValue::Object(vec![(s("k"), JsonValue::Int(1))]);
    let r = row_column_to_json("c", &WireType::Scalar(ScalarType::Jsonb), RawValue::Scalar(ScalarValue::Json(nested)));
    assert_eq!(r.unwrap(), JsonValue::Object(vec![(s("k"), JsonValue::Int(1))]));
}

#[test]
fn unsupported_wire_type_fails_with_both_names() {
    let r = row_column_to_json("ts", &WireType::Other(s("timestamptz")), RawValue::Null);
    let e = r.unwrap_err();
    assert_eq!(
        e,
        SqlError::UnsupportedType { column: s("ts"), wire_type: s("timestamptz") }
    );
    assert_eq!(
        e.message(),
        "Could not convert column 'ts' to json - unsupported column type 'timestamptz'"
    );
}

fn two_column_row() -> SqlRow {
    SqlRow {
        columns: vec![
            ColumnInfo { name: s("v"), ty: WireType::Scalar(ScalarType::Int4) },
            ColumnInfo { name: s("t"), ty: WireType::Scalar(ScalarType::Text) },
        ],
        values: vec![
            RawValue::Scalar(ScalarValue::Int(1)),
            RawValue::Scalar(ScalarValue::Text(s("x"))),
        ],
    }
}

#[test]
fn row_object_keys_follow_column_order() {
    let obj = row_to_json_map(two_column_row()).unwrap();
    assert_eq!(
        obj,
        JsonValue::Object(vec![
            (s("v"), JsonValue::Int(1)),
            (s("t"), JsonValue::Str(s("x"))),
        ])
    );
}

#[test]
fn row_columns_follow_column_order() {
    let cells = row_to_json_columns(two_column_row()).unwrap();
    assert_eq!(cells, vec![JsonValue::Int(1), JsonValue::Str(s("x"))]);
}

#[test]
fn row_with_unsupported_column_fails_whole_row() {
    let row = SqlRow {
        columns: vec![
            ColumnInfo { name: s("a"), ty: WireType::Scalar(ScalarType::Int4) },
            ColumnInfo { name: s("b"), ty: WireType::Other(s("uuid")) },
        ],
        values: vec![RawValue::Scalar(ScalarValue::Int(1)), RawValue::Null],
    };
    let e = row_to_json_map(row).unwrap_err();
    assert_eq!(e, SqlError::UnsupportedType { column: s("b"), wire_type: s("uuid") });
}

#[test]
fn duplicate_column_names_are_not_deduplicated() {
    let row = SqlRow {
        columns: vec![
            ColumnInfo { name: s("v"), ty: WireType::Scalar(ScalarType::Int4) },
            ColumnInfo { name: s("v"), ty: WireType::Scalar(ScalarType::Int4) },
        ],
        values: vec![
            RawValue::Scalar(ScalarValue::Int(1)),
            RawValue::Scalar(ScalarValue::Int(2)),
        ],
    };
    let obj = row_to_json_map(row).unwrap();
    assert_eq!(
        obj,
        JsonValue::Object(vec![(s("v"), JsonValue::Int(1)), (s("v"), JsonValue::Int(2))])
    );
}

#[test]
fn result_set_column_names_come_from_first_row() {
    let rows = vec![two_column_row(), two_column_row()];
    let (names, arrays) = rows_to_column_arrays(rows).unwrap();
    assert_eq!(names, vec![s("v"), s("t")]);
    assert_eq!(arrays.len(), 2);
    assert_eq!(arrays[0], vec![JsonValue::Int(1), JsonValue::Str(s("x"))]);
}

#[test]
fn empty_result_set_has_empty_names_and_rows() {
    let (names, arrays) = rows_to_column_arrays(vec![]).unwrap();
    assert!(names.is_empty());
    assert!(arrays.is_empty());
    let objs = rows_to_json_maps(vec![]).unwrap();
    assert!(objs.is_empty());
}
