//! The query dispatcher's decision logic: backend selection by URI scheme,
//! and the conversion-plus-encoding of a materialized result set.
//!
//! The surrounding infrastructure parses a request into a [`SqlQuery`] and
//! a format selector, picks the backend with [`backend_for_uri`], runs the
//! statement, hands the materialized rows to [`render_result`], and sends
//! the returned text with its content type.

use vstd::prelude::*;
use crate::json::{JsonValue, escaped_text};
use crate::error::SqlError;
use crate::convert::{SqlRow, ColumnInfo, rows_wf, rows_error_ok, row_object_ok, row_cells_ok,
    has_other, rows_to_json_maps, rows_to_column_arrays, row_object_text, row_array_text,
    lemma_object_text, lemma_cells_text};
use crate::encode::{SqlOutputFormat, format_is_row_oriented, content_type,
    json_array_text, json_lines_text, json_columns_text, column_lines_text, encode_json,
    encode_json_lines, encode_json_columns, encode_json_column_lines};

verus! {

/// An ad-hoc SQL query: the statement text, optional positional and named
/// arguments, and the target database URI.
///
/// Arguments are accepted in the schema but not yet bound into the
/// executed statement: the statement text runs verbatim.
#[derive(Debug, PartialEq, Eq)]
pub struct SqlQuery {
    pub query: String,
    pub args: Option<Vec<JsonValue>>,
    pub kw_args: Option<Vec<(String, JsonValue)>>,
    pub db: String,
}

/// The database backends a URI scheme can select.
#[derive(Clone, Copy, Debug, PartialEq, Eq, Structural)]
pub enum BackendKind {
    Postgres,
}

/// `p` is a prefix of `s`.
pub open spec fn has_prefix(s: Seq<char>, p: Seq<char>) -> bool {
    s.len() >= p.len() && s.take(p.len() as int) == p
}

/// Whether `p` is a prefix of `s`, character for character.
pub fn str_has_prefix(s: &str, p: &str) -> (r: bool)
    ensures
        r == has_prefix(s@, p@),
{
    let n: usize = s.unicode_len();
    let np: usize = p.unicode_len();
    if n < np {
        return false;
    }
    let mut i: usize = 0;
    while i < np
        invariant
            n == s@.len(),
            np == p@.len(),
            np <= n,
            0 <= i <= np,
            forall|j: int| 0 <= j < i ==> s@[j] == p@[j],
        decreases np - i,
    {
        if s.get_char(i) != p.get_char(i) {
            proof {
                assert(s@.take(np as int)[i as int] != p@[i as int]);
            }
            return false;
        }
        i = i + 1;
    }
    proof {
        assert(s@.take(np as int) =~= p@);
    }
    true
}

/// Selects the backend for a database URI: the one known scheme is
/// `postgres://`. Any other scheme is rejected here, before any
/// connection attempt, with the unsupported-database error carrying the
/// URI.
pub fn backend_for_uri(db: &str) -> (r: Result<BackendKind, SqlError>)
    ensures
        match r {
            Ok(k) => k == BackendKind::Postgres && has_prefix(db@, "postgres://"@),
            Err(e) => {
                &&& !has_prefix(db@, "postgres://"@)
                &&& e matches SqlError::UnsupportedDatabase { db: d } && d@ == db@
            },
        },
{
    if str_has_prefix(db, "postgres://") {
        Ok(BackendKind::Postgres)
    } else {
        Err(SqlError::UnsupportedDatabase { db: db.to_owned() })
    }
}

/// `objs` is the row-oriented conversion of `rows`: one JSON object per
/// row, in row order.
pub open spec fn row_objects_ok(rows: Seq<SqlRow>, objs: Seq<JsonValue>) -> bool {
    objs.len() == rows.len() && forall|i: int|
        0 <= i < rows.len() ==> row_object_ok(rows[i], #[trigger] objs[i])
}

/// `arrays` is the column-oriented conversion of `rows`: one JSON value
/// array per row, in row order.
pub open spec fn row_arrays_ok(rows: Seq<SqlRow>, arrays: Seq<Vec<JsonValue>>) -> bool {
    arrays.len() == rows.len() && forall|i: int|
        0 <= i < rows.len() ==> row_cells_ok(rows[i], (#[trigger] arrays[i])@)
}

/// `names` is the column-name sequence of the result set: the first row's
/// column names, or empty for an empty result set.
pub open spec fn names_ok(rows: Seq<SqlRow>, names: Seq<String>) -> bool {
    if rows.len() == 0 {
        names.len() == 0
    } else {
        names.len() == rows[0].columns@.len() && forall|j: int|
            0 <= j < names.len() ==> (#[trigger] names[j])@ == rows[0].columns@[j].name@
    }
}

/// `text` is the chosen encoding of the converted result set: for the
/// row-oriented formats the document built from the row objects, for the
/// column-oriented formats the document built from the cell arrays (and,
/// for the line format, the column names).
pub open spec fn encoded_ok(format: SqlOutputFormat, rows: Seq<SqlRow>, text: Seq<char>) -> bool {
    match format {
        SqlOutputFormat::Json => exists|objs: Seq<JsonValue>|
            #[trigger] row_objects_ok(rows, objs) && text == json_array_text(objs),
        SqlOutputFormat::JsonLines => exists|objs: Seq<JsonValue>|
            #[trigger] row_objects_ok(rows, objs) && text == json_lines_text(objs),
        SqlOutputFormat::JsonColumns => exists|arrays: Seq<Vec<JsonValue>>|
            #[trigger] row_arrays_ok(rows, arrays) && text == json_columns_text(arrays),
        SqlOutputFormat::JsonColumnLines => exists|names: Seq<String>, arrays: Seq<Vec<JsonValue>>|
            #![trigger names_ok(rows, names), row_arrays_ok(rows, arrays)]
            names_ok(rows, names) && row_arrays_ok(rows, arrays) && text == column_lines_text(
                names,
                arrays,
            ),
    }
}

/// The comma-separated list of the rows' serialized objects.
pub open spec fn objects_body_text_of(rows: Seq<SqlRow>) -> Seq<char>
    decreases rows.len(),
{
    if rows.len() == 0 {
        Seq::<char>::empty()
    } else if rows.len() == 1 {
        row_object_text(rows[0])
    } else {
        objects_body_text_of(rows.drop_last()) + seq![','] + row_object_text(rows.last())
    }
}

/// The comma-separated list of the rows' serialized value arrays.
pub open spec fn arrays_body_text_of(rows: Seq<SqlRow>) -> Seq<char>
    decreases rows.len(),
{
    if rows.len() == 0 {
        Seq::<char>::empty()
    } else if rows.len() == 1 {
        row_array_text(rows[0])
    } else {
        arrays_body_text_of(rows.drop_last()) + seq![','] + row_array_text(rows.last())
    }
}

/// One serialized object per row, each followed by a newline.
pub open spec fn objects_lines_text_of(rows: Seq<SqlRow>) -> Seq<char>
    decreases rows.len(),
{
    if rows.len() == 0 {
        Seq::<char>::empty()
    } else {
        objects_lines_text_of(rows.drop_last()) + row_object_text(rows.last()) + seq!['\n']
    }
}

/// One serialized value array per row, each followed by a newline.
pub open spec fn arrays_lines_text_of(rows: Seq<SqlRow>) -> Seq<char>
    decreases rows.len(),
{
    if rows.len() == 0 {
        Seq::<char>::empty()
    } else {
        arrays_lines_text_of(rows.drop_last()) + row_array_text(rows.last()) + seq!['\n']
    }
}

/// The comma-separated column names of a row, as JSON strings.
pub open spec fn columns_names_body_text(cols: Seq<ColumnInfo>) -> Seq<char>
    decreases cols.len(),
{
    if cols.len() == 0 {
        Seq::<char>::empty()
    } else if cols.len() == 1 {
        seq!['"'] + escaped_text(cols[0].name@) + seq!['"']
    } else {
        columns_names_body_text(cols.drop_last()) + seq![','] + seq!['"'] + escaped_text(
            cols.last().name@,
        ) + seq!['"']
    }
}

/// The serialized column-name array of a result set: the first row's
/// column names, or an empty array for an empty result set.
pub open spec fn result_names_text(rows: Seq<SqlRow>) -> Seq<char> {
    if rows.len() == 0 {
        seq!['[', ']']
    } else {
        seq!['['] + columns_names_body_text(rows[0].columns@) + seq![']']
    }
}

/// The exact document each format renders a result set to.
pub open spec fn result_text(format: SqlOutputFormat, rows: Seq<SqlRow>) -> Seq<char> {
    match format {
        SqlOutputFormat::Json => seq!['['] + objects_body_text_of(rows) + seq![']'],
        SqlOutputFormat::JsonLines => objects_lines_text_of(rows),
        SqlOutputFormat::JsonColumns => seq!['['] + arrays_body_text_of(rows) + seq![']'],
        SqlOutputFormat::JsonColumnLines => result_names_text(rows) + seq!['\n']
            + arrays_lines_text_of(rows),
    }
}

proof fn lemma_objects_body(rows: Seq<SqlRow>, objs: Seq<JsonValue>)
    requires
        rows_wf(rows),
        row_objects_ok(rows, objs),
    ensures
        crate::json::array_body_text(objs) == objects_body_text_of(rows),
    decreases rows.len(),
{
    if rows.len() == 1 {
        lemma_object_text(rows[0], objs[0]);
    } else if rows.len() > 1 {
        assert(row_objects_ok(rows.drop_last(), objs.drop_last()));
        lemma_objects_body(rows.drop_last(), objs.drop_last());
        assert(objs.last() == objs[objs.len() - 1]);
        assert(rows.last() == rows[rows.len() - 1]);
        lemma_object_text(rows.last(), objs.last());
    }
}

proof fn lemma_objects_lines(rows: Seq<SqlRow>, objs: Seq<JsonValue>)
    requires
        rows_wf(rows),
        row_objects_ok(rows, objs),
    ensures
        crate::encode::json_lines_text(objs) == objects_lines_text_of(rows),
    decreases rows.len(),
{
    if rows.len() > 0 {
        assert(row_objects_ok(rows.drop_last(), objs.drop_last()));
        lemma_objects_lines(rows.drop_last(), objs.drop_last());
        assert(objs.last() == objs[objs.len() - 1]);
        assert(rows.last() == rows[rows.len() - 1]);
        lemma_object_text(rows.last(), objs.last());
    }
}

proof fn lemma_arrays_body(rows: Seq<SqlRow>, arrays: Seq<Vec<JsonValue>>)
    requires
        row_arrays_ok(rows, arrays),
    ensures
        crate::encode::rows_body_text(arrays) == arrays_body_text_of(rows),
    decreases rows.len(),
{
    if rows.len() == 1 {
        lemma_cells_text(rows[0], arrays[0]@);
    } else if rows.len() > 1 {
        assert(row_arrays_ok(rows.drop_last(), arrays.drop_last()));
        lemma_arrays_body(rows.drop_last(), arrays.drop_last());
        assert(arrays.last() == arrays[arrays.len() - 1]);
        assert(rows.last() == rows[rows.len() - 1]);
        lemma_cells_text(rows.last(), arrays.last()@);
    }
}

proof fn lemma_arrays_lines(rows: Seq<SqlRow>, arrays: Seq<Vec<JsonValue>>)
    requires
        row_arrays_ok(rows, arrays),
    ensures
        crate::encode::rows_lines_text(arrays) == arrays_lines_text_of(rows),
    decreases rows.len(),
{
    if rows.len() > 0 {
        assert(row_arrays_ok(rows.drop_last(), arrays.drop_last()));
        lemma_arrays_lines(rows.drop_last(), arrays.drop_last());
        assert(arrays.last() == arrays[arrays.len() - 1]);
        assert(rows.last() == rows[rows.len() - 1]);
        lemma_cells_text(rows.last(), arrays.last()@);
    }
}

proof fn lemma_names_body(cols: Seq<ColumnInfo>, names: Seq<String>)
    requires
        names.len() == cols.len(),
        forall|j: int| 0 <= j < names.len() ==> (#[trigger] names[j])@ == cols[j].name@,
    ensures
        crate::encode::names_body_text(names) == columns_names_body_text(cols),
    decreases cols.len(),
{
    if cols.len() == 1 {
        assert(names[0]@ == cols[0].name@);
    } else if cols.len() > 1 {
        lemma_names_body(cols.drop_last(), names.drop_last());
        assert(names.last() == names[names.len() - 1]);
        assert(names.last()@ == cols.last().name@);
    }
}

proof fn lemma_names_text(rows: Seq<SqlRow>, names: Seq<String>)
    requires
        names_ok(rows, names),
    ensures
        crate::encode::names_array_text(names) == result_names_text(rows),
{
    if rows.len() == 0 {
        assert(crate::encode::names_array_text(names) =~= seq!['[', ']']);
    } else {
        lemma_names_body(rows[0].columns@, names);
    }
}

/// Converts a materialized result set and renders it in the requested
/// format. Succeeds exactly when every column of every row has a
/// supported wire type; the output text is [`result_text`] of the rows,
/// and the content type is always `application/json`.
pub fn render_result(format: SqlOutputFormat, rows: Vec<SqlRow>) -> (r: Result<
    (String, &'static str),
    SqlError,
>)
    requires
        rows_wf(rows@),
    ensures
        match r {
            Ok(out) => {
                &&& out.1@ == "application/json"@
                &&& out.0@ == result_text(format, rows@)
                &&& encoded_ok(format, rows@, out.0@)
                &&& forall|i: int| 0 <= i < rows@.len() ==> !has_other(
                    (#[trigger] rows@[i]).columns@,
                )
            },
            Err(e) => rows_error_ok(rows@, e),
        },
{
    let ct = content_type(format);
    if format_is_row_oriented(format) {
        let objs = match rows_to_json_maps(rows) {
            Ok(objs) => objs,
            Err(e) => {
                return Err(e);
            },
        };
        let text = match format {
            SqlOutputFormat::JsonLines => encode_json_lines(&objs),
            _ => encode_json(&objs),
        };
        proof {
            assert(row_objects_ok(rows@, objs@));
            lemma_objects_body(rows@, objs@);
            lemma_objects_lines(rows@, objs@);
        }
        Ok((text, ct))
    } else {
        let (names, arrays) = match rows_to_column_arrays(rows) {
            Ok(out) => out,
            Err(e) => {
                return Err(e);
            },
        };
        let text = match format {
            SqlOutputFormat::JsonColumnLines => encode_json_column_lines(&names, &arrays),
            _ => encode_json_columns(&arrays),
        };
        proof {
            assert(row_arrays_ok(rows@, arrays@));
            assert(names_ok(rows@, names@));
            lemma_arrays_body(rows@, arrays@);
            lemma_arrays_lines(rows@, arrays@);
            lemma_names_text(rows@, names@);
        }
        Ok((text, ct))
    }
}

} // verus!
