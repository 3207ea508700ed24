use daprox::convert::{ColumnInfo, RawValue, ScalarType, ScalarValue, SqlRow, WireType};
use daprox::dispatch::render_result;
use daprox::encode::{
    content_type, encode_json, encode_json_column_lines, encode_json_columns, encode_json_lines,
    format_is_row_oriented, SqlOutputFormat,
};
use daprox::json::JsonValue;

fn s(v: &str) -> String {
    v.to_string()
}

fn one_row_v1() -> Vec<SqlRow> {
    vec![SqlRow {
        columns: vec![ColumnInfo { name: s("v"), ty: WireType::Scalar(ScalarType::Int4) }],
        values: vec![RawValue::Scalar(ScalarValue::Int(1))],
    }]
}

fn two_rows_two_cols() -> Vec<SqlRow> {
    let row = |a: i64, b: &str| SqlRow {
        columns: vec![
            ColumnInfo { name: s("n"), ty: WireType::Scalar(ScalarType::Int8) },
            ColumnInfo { name: s("t"), ty: WireType::Scalar(ScalarType::Text) },
        ],
        values: vec![
            RawValue::Scalar(ScalarValue::Int(a)),
            RawValue::Scalar(ScalarValue::Text(s(b))),
        ],
    };
    vec![row(1, "a"), row(2, "b")]
}

#[test]
fn default_format_is_json() {
    assert_eq!(SqlOutputFormat::default(), SqlOutputFormat::Json);
}

#[test]
fn formats_split_into_row_and_column_oriented() {
    assert!(format_is_row_oriented(SqlOutputFormat::Json));
    assert!(format_is_row_oriented(SqlOutputFormat::JsonLines));
    assert!(!format_is_row_oriented(SqlOutputFormat::JsonColumns));
    assert!(!format_is_row_oriented(SqlOutputFormat::JsonColumnLines));
}

#[test]
fn every_format_has_json_content_type() {
    for f in [
        SqlOutputFormat::Json,
        SqlOutputFormat::JsonLines,
        SqlOutputFormat::JsonColumns,
        SqlOutputFormat::JsonColumnLines,
    ] {
        assert_eq!(content_type(f), "application/json");
    }
}

#[test]
fn single_integer_row_renders_as_object_array() {
    let (text, ct) = render_result(SqlOutputFormat::Json, one_row_v1()).unwrap();
    assert_eq!(text, "[{\"v\":1}]");
    assert_eq!(ct, "application/json");
}

#[test]
fn single_integer_row_renders_as_column_lines() {
    let (text, ct) = render_result(SqlOutputFormat::JsonColumnLines, one_row_v1()).unwrap();
    assert_eq!(text, "[\"v\"]\n[1]\n");
    assert_eq!(ct, "application/json");
    let lines: Vec<&str> = text.lines().collect();
    assert_eq!(lines, vec!["[\"v\"]", "[1]"]);
}

#[test]
fn json_and_json_columns_carry_the_same_values_in_the_same_order() {
    let (obj_text, _) = render_result(SqlOutputFormat::Json, two_rows_two_cols()).unwrap();
    let (col_text, _) = render_result(SqlOutputFormat::JsonColumns, two_rows_two_cols()).unwrap();
    assert_eq!(obj_text, "[{\"n\":1,\"t\":\"a\"},{\"n\":2,\"t\":\"b\"}]");
    assert_eq!(col_text, "[[1,\"a\"],[2,\"b\"]]");
    let objs: serde_json::Value = serde_json::from_str(&obj_text).unwrap();
    let cols: serde_json::Value = serde_json::from_str(&col_text).unwrap();
    let objs = objs.as_array().unwrap();
    let cols = cols.as_array().unwrap();
    assert_eq!(objs.len(), cols.len());
    for (o, c) in objs.iter().zip(cols.iter()) {
        let o = o.as_object().unwrap();
        let c = c.as_array().unwrap();
        assert_eq!(o.len(), c.len());
        assert_eq!(o.get("n").unwrap(), &c[0]);
        assert_eq!(o.get("t").unwrap(), &c[1]);
    }
}

#[test]
fn column_lines_first_line_is_the_column_names() {
    let (text, _) = render_result(SqlOutputFormat::JsonColumnLines, two_rows_two_cols()).unwrap();
    let lines: Vec<&str> = text.lines().collect();
    assert_eq!(lines.len(), 2 + 1);
    assert_eq!(text.matches('\n').count(), 2 + 1);
    let first: serde_json::Value = serde_json::from_str(lines[0]).unwrap();
    assert_eq!(
        first,
        serde_json::Value::Array(vec![
            serde_json::Value::String(s("n")),
            serde_json::Value::String(s("t")),
        ])
    );
    let row1: serde_json::Value = serde_json::from_str(lines[1]).unwrap();
    assert_eq!(row1.as_array().unwrap().len(), 2);
}

#[test]
fn json_lines_emits_one_object_per_line() {
    let (text, _) = render_result(SqlOutputFormat::JsonLines, two_rows_two_cols()).unwrap();
    assert_eq!(text, "{\"n\":1,\"t\":\"a\"}\n{\"n\":2,\"t\":\"b\"}\n");
    assert_eq!(text.matches('\n').count(), 2);
}

#[test]
fn empty_result_set_encodings() {
    let (text, _) = render_result(SqlOutputFormat::Json, vec![]).unwrap();
    assert_eq!(text, "[]");
    let (text, _) = render_result(SqlOutputFormat::JsonLines, vec![]).unwrap();
    assert_eq!(text, "");
    let (text, _) = render_result(SqlOutputFormat::JsonColumns, vec![]).unwrap();
    assert_eq!(text, "[]");
    let (text, _) = render_result(SqlOutputFormat::JsonColumnLines, vec![]).unwrap();
    assert_eq!(text, "[]\n");
}

#[test]
fn encoders_compose_from_prebuilt_values() {
    let objs = vec![JsonValue::Object(vec![(s("v"), JsonValue::Int(1))])];
    assert_eq!(encode_json(&objs), "[{\"v\":1}]");
    assert_eq!(encode_json_lines(&objs), "{\"v\":1}\n");
    let rows = vec![vec![JsonValue::Int(1)], vec![JsonValue::Int(2)]];
    assert_eq!(encode_json_columns(&rows), "[[1],[2]]");
    assert_eq!(
        encode_json_column_lines(&vec![s("v")], &rows),
        "[\"v\"]\n[1]\n[2]\n"
    );
}
