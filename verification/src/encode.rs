//! The result encoder: renders converted query output as bytes-on-the-wire
//! text in one of four encodings, each with content type
//! `application/json`.
//!
//! Encoding is pure and total: it never fails on its own; failures happen
//! upstream, during query execution or type conversion.

use vstd::prelude::*;
use crate::json::{
    JsonValue, json_text, wf_json, array_body_text, escaped_text, no_newline, count_char,
    write_json, write_json_str, push_char, lemma_array_body_snoc, lemma_escaped_text_no_newline,
    lemma_array_body_no_newline, lemma_json_text_no_newline, lemma_count_char_concat,
    lemma_no_newline_count,
};

verus! {

/// The available output formats for SQL queries.
#[derive(Clone, Copy, Debug, PartialEq, Eq, Structural)]
pub enum SqlOutputFormat {
    /// A JSON array of objects, one per row.
    /// The object keys are the column names.
    Json,
    /// One JSON object per row, separated by newlines.
    /// The object keys are the column names.
    JsonLines,
    /// A JSON array of arrays.
    /// The inner arrays contain the column values.
    JsonColumns,
    /// JSON arrays for each row, separated by newlines.
    /// The arrays contain the column values.
    /// NOTE: The first line contains an array with the column names.
    JsonColumnLines,
}

impl Default for SqlOutputFormat {
    fn default() -> (r: Self)
        ensures
            r == SqlOutputFormat::Json,
    {
        SqlOutputFormat::Json
    }
}

/// Whether a format renders row objects (as opposed to column arrays).
pub open spec fn is_row_oriented(f: SqlOutputFormat) -> bool {
    f == SqlOutputFormat::Json || f == SqlOutputFormat::JsonLines
}

/// Decides whether `f` is row-oriented; the column-oriented formats are
/// exactly the other two.
pub fn format_is_row_oriented(f: SqlOutputFormat) -> (r: bool)
    ensures
        r == is_row_oriented(f),
{
    match f {
        SqlOutputFormat::Json => true,
        SqlOutputFormat::JsonLines => true,
        SqlOutputFormat::JsonColumns => false,
        SqlOutputFormat::JsonColumnLines => false,
    }
}

/// The content type of every encoding.
pub fn content_type(f: SqlOutputFormat) -> (r: &'static str)
    ensures
        r@ == "application/json"@,
{
    let _ = f;
    "application/json"
}

/// One JSON array holding the given values in order.
pub open spec fn json_array_text(items: Seq<JsonValue>) -> Seq<char> {
    seq!['['] + array_body_text(items) + seq![']']
}

/// One line per value: its JSON text followed by a newline.
pub open spec fn json_lines_text(items: Seq<JsonValue>) -> Seq<char>
    decreases items.len(),
{
    if items.len() == 0 {
        Seq::<char>::empty()
    } else {
        json_lines_text(items.drop_last()) + json_text(items.last()) + seq!['\n']
    }
}

/// The comma-separated list of the rows, each as a JSON array.
pub open spec fn rows_body_text(rows: Seq<Vec<JsonValue>>) -> Seq<char>
    decreases rows.len(),
{
    if rows.len() == 0 {
        Seq::<char>::empty()
    } else if rows.len() == 1 {
        json_array_text(rows[0]@)
    } else {
        rows_body_text(rows.drop_last()) + seq![','] + json_array_text(rows.last()@)
    }
}

/// One JSON array of arrays: the whole result set, column-oriented.
pub open spec fn json_columns_text(rows: Seq<Vec<JsonValue>>) -> Seq<char> {
    seq!['['] + rows_body_text(rows) + seq![']']
}

/// The comma-separated list of the column names as JSON strings.
pub open spec fn names_body_text(names: Seq<String>) -> Seq<char>
    decreases names.len(),
{
    if names.len() == 0 {
        Seq::<char>::empty()
    } else if names.len() == 1 {
        seq!['"'] + escaped_text(names[0]@) + seq!['"']
    } else {
        names_body_text(names.drop_last()) + seq![','] + seq!['"'] + escaped_text(names.last()@)
            + seq!['"']
    }
}

/// The JSON array of the column names.
pub open spec fn names_array_text(names: Seq<String>) -> Seq<char> {
    seq!['['] + names_body_text(names) + seq![']']
}

/// One line per row: the row's JSON array followed by a newline.
pub open spec fn rows_lines_text(rows: Seq<Vec<JsonValue>>) -> Seq<char>
    decreases rows.len(),
{
    if rows.len() == 0 {
        Seq::<char>::empty()
    } else {
        rows_lines_text(rows.drop_last()) + json_array_text(rows.last()@) + seq!['\n']
    }
}

/// The whole column-lines document: first the column-name array and a
/// newline, then one line per row.
pub open spec fn column_lines_text(names: Seq<String>, rows: Seq<Vec<JsonValue>>) -> Seq<char> {
    names_array_text(names) + seq!['\n'] + rows_lines_text(rows)
}

/// Appends the JSON array of `items` to `out`.
fn write_json_array(items: &Vec<JsonValue>, out: &mut String)
    ensures
        final(out)@ == old(out)@ + json_array_text(items@),
{
    let ghost out0: Seq<char> = out@;
    push_char(out, '[');
    let n: usize = items.len();
    let mut i: usize = 0;
    while i < n
        invariant
            n == items@.len(),
            0 <= i <= n,
            out@ == out0 + seq!['['] + array_body_text(items@.take(i as int)),
        decreases n - i,
    {
        if i > 0 {
            push_char(out, ',');
        }
        write_json(&items[i], out);
        proof {
            lemma_array_body_snoc(items@, i as int);
            assert(out@ =~= out0 + seq!['['] + array_body_text(items@.take(i + 1 as int)));
        }
        i = i + 1;
    }
    proof {
        assert(items@.take(n as int) =~= items@);
    }
    push_char(out, ']');
    proof {
        assert(final(out)@ =~= out0 + json_array_text(items@));
    }
}

/// Encodes the row objects as a single JSON array.
pub fn encode_json(items: &Vec<JsonValue>) -> (r: String)
    ensures
        r@ == json_array_text(items@),
{
    let mut out = String::new();
    write_json_array(items, &mut out);
    out
}

proof fn lemma_json_lines_snoc(items: Seq<JsonValue>, i: int)
    requires
        0 <= i < items.len(),
    ensures
        json_lines_text(items.take(i + 1)) == json_lines_text(items.take(i)) + json_text(items[i])
            + seq!['\n'],
{
    assert(items.take(i + 1).drop_last() =~= items.take(i));
    assert(items.take(i + 1).last() == items[i]);
}

/// Encodes the row objects line-delimited: each row's JSON text followed
/// by a newline, in row order.
pub fn encode_json_lines(items: &Vec<JsonValue>) -> (r: String)
    ensures
        r@ == json_lines_text(items@),
{
    let mut out = String::new();
    let ghost out0: Seq<char> = out@;
    let n: usize = items.len();
    let mut i: usize = 0;
    while i < n
        invariant
            n == items@.len(),
            0 <= i <= n,
            out@ == json_lines_text(items@.take(i as int)),
        decreases n - i,
    {
        write_json(&items[i], &mut out);
        push_char(&mut out, '\n');
        proof {
            lemma_json_lines_snoc(items@, i as int);
            assert(out@ =~= json_lines_text(items@.take(i + 1 as int)));
        }
        i = i + 1;
    }
    proof {
        assert(items@.take(n as int) =~= items@);
    }
    out
}

/// The line-delimited row encoding holds exactly one newline per row:
/// each well-formed value serializes without a newline of its own, so
/// values and lines correspond one to one.
pub proof fn lemma_json_lines_shape(items: Seq<JsonValue>)
    requires
        forall|i: int| 0 <= i < items.len() ==> wf_json(#[trigger] items[i]),
    ensures
        count_char(json_lines_text(items), '\n') == items.len(),
    decreases items.len(),
{
    if items.len() > 0 {
        lemma_json_lines_shape(items.drop_last());
        let head = json_lines_text(items.drop_last());
        let line = json_text(items.last());
        lemma_json_text_no_newline(items.last());
        lemma_no_newline_count(line);
        lemma_count_char_concat(head, line, '\n');
        lemma_count_char_concat(head + line, seq!['\n'], '\n');
        assert(count_char(Seq::<char>::empty(), '\n') == 0);
        assert(seq!['\n'].drop_last() =~= Seq::<char>::empty());
        assert(count_char(seq!['\n'], '\n') == 1);
    }
}

proof fn lemma_rows_body_snoc(rows: Seq<Vec<JsonValue>>, i: int)
    requires
        0 <= i < rows.len(),
    ensures
        i == 0 ==> rows_body_text(rows.take(1)) == json_array_text(rows[0]@),
        i > 0 ==> rows_body_text(rows.take(i + 1)) == rows_body_text(rows.take(i)) + seq![',']
            + json_array_text(rows[i]@),
{
    if i == 0 {
        assert(rows.take(1)[0] == rows[0]);
    } else {
        assert(rows.take(i + 1).drop_last() =~= rows.take(i));
        assert(rows.take(i + 1).last() == rows[i]);
    }
}

/// Encodes the column arrays as a single JSON array of arrays. The
/// column names are not part of this encoding.
pub fn encode_json_columns(rows: &Vec<Vec<JsonValue>>) -> (r: String)
    ensures
        r@ == json_columns_text(rows@),
{
    let mut out = String::new();
    let ghost out0: Seq<char> = out@;
    push_char(&mut out, '[');
    let n: usize = rows.len();
    let mut i: usize = 0;
    while i < n
        invariant
            n == rows@.len(),
            0 <= i <= n,
            out@ == seq!['['] + rows_body_text(rows@.take(i as int)),
        decreases n - i,
    {
        if i > 0 {
            push_char(&mut out, ',');
        }
        write_json_array(&rows[i], &mut out);
        proof {
            lemma_rows_body_snoc(rows@, i as int);
            assert(out@ =~= seq!['['] + rows_body_text(rows@.take(i + 1 as int)));
        }
        i = i + 1;
    }
    proof {
        assert(rows@.take(n as int) =~= rows@);
    }
    push_char(&mut out, ']');
    proof {
        assert(out@ =~= json_columns_text(rows@));
    }
    out
}

proof fn lemma_names_body_snoc(names: Seq<String>, i: int)
    requires
        0 <= i < names.len(),
    ensures
        i == 0 ==> names_body_text(names.take(1)) == seq!['"'] + escaped_text(names[0]@)
            + seq!['"'],
        i > 0 ==> names_body_text(names.take(i + 1)) == names_body_text(names.take(i)) + seq![',']
            + seq!['"'] + escaped_text(names[i]@) + seq!['"'],
{
    if i == 0 {
        assert(names.take(1)[0] == names[0]);
    } else {
        assert(names.take(i + 1).drop_last() =~= names.take(i));
        assert(names.take(i + 1).last() == names[i]);
    }
}

/// Appends the JSON array of the column names to `out`.
fn write_names_array(names: &Vec<String>, out: &mut String)
    ensures
        final(out)@ == old(out)@ + names_array_text(names@),
{
    let ghost out0: Seq<char> = out@;
    push_char(out, '[');
    let n: usize = names.len();
    let mut i: usize = 0;
    while i < n
        invariant
            n == names@.len(),
            0 <= i <= n,
            out@ == out0 + seq!['['] + names_body_text(names@.take(i as int)),
        decreases n - i,
    {
        if i > 0 {
            push_char(out, ',');
        }
        write_json_str(names[i].as_str(), out);
        proof {
            lemma_names_body_snoc(names@, i as int);
            assert(out@ =~= out0 + seq!['['] + names_body_text(names@.take(i + 1 as int)));
        }
        i = i + 1;
    }
    proof {
        assert(names@.take(n as int) =~= names@);
    }
    push_char(out, ']');
    proof {
        assert(final(out)@ =~= out0 + names_array_text(names@));
    }
}

proof fn lemma_rows_lines_snoc(rows: Seq<Vec<JsonValue>>, i: int)
    requires
        0 <= i < rows.len(),
    ensures
        rows_lines_text(rows.take(i + 1)) == rows_lines_text(rows.take(i)) + json_array_text(
            rows[i]@,
        ) + seq!['\n'],
{
    assert(rows.take(i + 1).drop_last() =~= rows.take(i));
    assert(rows.take(i + 1).last() == rows[i]);
}

/// Encodes the column-oriented result line-delimited: first the JSON
/// array of the column names and a newline, then each row's JSON array
/// followed by a newline, in row order.
pub fn encode_json_column_lines(names: &Vec<String>, rows: &Vec<Vec<JsonValue>>) -> (r: String)
    ensures
        r@ == column_lines_text(names@, rows@),
{
    let mut out = String::new();
    write_names_array(names, &mut out);
    push_char(&mut out, '\n');
    let ghost head: Seq<char> = out@;
    let n: usize = rows.len();
    let mut i: usize = 0;
    while i < n
        invariant
            n == rows@.len(),
            0 <= i <= n,
            out@ == head + rows_lines_text(rows@.take(i as int)),
        decreases n - i,
    {
        write_json_array(&rows[i], &mut out);
        push_char(&mut out, '\n');
        proof {
            lemma_rows_lines_snoc(rows@, i as int);
            assert(out@ =~= head + rows_lines_text(rows@.take(i + 1 as int)));
        }
        i = i + 1;
    }
    proof {
        assert(rows@.take(n as int) =~= rows@);
        assert(out@ =~= column_lines_text(names@, rows@));
    }
    out
}

proof fn lemma_names_body_no_newline(names: Seq<String>)
    ensures
        no_newline(names_body_text(names)),
    decreases names.len(),
{
    if names.len() == 1 {
        lemma_escaped_text_no_newline(names[0]@);
    } else if names.len() > 1 {
        lemma_names_body_no_newline(names.drop_last());
        lemma_escaped_text_no_newline(names.last()@);
    }
}

/// All cell values of every row are well formed.
pub open spec fn wf_rows(rows: Seq<Vec<JsonValue>>) -> bool {
    forall|i: int, j: int|
        0 <= i < rows.len() && 0 <= j < rows[i]@.len() ==> wf_json(#[trigger] rows[i]@[j])
}

proof fn lemma_json_array_no_newline(items: Seq<JsonValue>)
    requires
        forall|j: int| 0 <= j < items.len() ==> wf_json(#[trigger] items[j]),
    ensures
        no_newline(json_array_text(items)),
{
    lemma_array_body_no_newline(items);
}

proof fn lemma_rows_lines_count(rows: Seq<Vec<JsonValue>>)
    requires
        wf_rows(rows),
    ensures
        count_char(rows_lines_text(rows), '\n') == rows.len(),
    decreases rows.len(),
{
    if rows.len() > 0 {
        lemma_rows_lines_count(rows.drop_last());
        let head = rows_lines_text(rows.drop_last());
        let line = json_array_text(rows.last()@);
        assert forall|j: int| 0 <= j < rows.last()@.len() implies wf_json(
            #[trigger] rows.last()@[j],
        ) by {
            assert(rows.last() == rows[rows.len() - 1]);
        }
        lemma_json_array_no_newline(rows.last()@);
        lemma_no_newline_count(line);
        lemma_count_char_concat(head, line, '\n');
        lemma_count_char_concat(head + line, seq!['\n'], '\n');
        assert(count_char(Seq::<char>::empty(), '\n') == 0);
        assert(seq!['\n'].drop_last() =~= Seq::<char>::empty());
        assert(count_char(seq!['\n'], '\n') == 1);
    }
}

/// The shape of the column-lines encoding: the text before the first
/// newline is exactly the JSON array of the column names, and the
/// document holds one newline per row plus one for the name line — its
/// line count is the row count plus one.
pub proof fn lemma_column_lines_shape(names: Seq<String>, rows: Seq<Vec<JsonValue>>)
    requires
        wf_rows(rows),
    ensures
        ({
            let t = column_lines_text(names, rows);
            let h = names_array_text(names);
            &&& no_newline(h)
            &&& t.len() > h.len()
            &&& t.take(h.len() as int) == h
            &&& t[h.len() as int] == '\n'
            &&& count_char(t, '\n') == rows.len() + 1
        }),
{
    let t = column_lines_text(names, rows);
    let h = names_array_text(names);
    lemma_names_body_no_newline(names);
    assert(no_newline(h));
    assert(t.take(h.len() as int) =~= h);
    lemma_no_newline_count(h);
    lemma_rows_lines_count(rows);
    lemma_count_char_concat(h, seq!['\n'], '\n');
    assert(count_char(Seq::<char>::empty(), '\n') == 0);
    assert(seq!['\n'].drop_last() =~= Seq::<char>::empty());
    assert(count_char(seq!['\n'], '\n') == 1);
    lemma_count_char_concat(h + seq!['\n'], rows_lines_text(rows), '\n');
    assert(t =~= (h + seq!['\n']) + rows_lines_text(rows));
}

} // verus!
