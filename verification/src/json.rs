//! The JSON value model and a verified JSON text emitter.
//!
//! Every database cell is converted into a [`JsonValue`], and the output
//! encodings render sequences of such values as JSON text. The exact text
//! produced is pinned down by the spec function [`json_text`].

use vstd::prelude::*;
use vstd::string::StrSliceExecFns;
use vstd::string::StringExecFns;

verus! {

/// A JSON document value.
///
/// Numbers are split in two: `Int` carries an exact 64-bit integer, while
/// `Num` carries an already-rendered JSON number token (used for values,
/// such as floating-point cells, whose decimal rendering is produced
/// outside the verified core).
#[derive(Debug, PartialEq, Eq)]
pub enum JsonValue {
    Null,
    Bool(bool),
    Int(i64),
    /// A pre-rendered JSON number token, e.g. `1.5` or `-2.25e3`.
    Num(String),
    Str(String),
    Array(Vec<JsonValue>),
    /// Object entries in insertion order; keys are serialized in this order.
    Object(Vec<(String, JsonValue)>),
}

/// The decimal digit character for `d` (`d < 10`).
pub open spec fn dec_digit(d: nat) -> char {
    if d == 0 { '0' }
    else if d == 1 { '1' }
    else if d == 2 { '2' }
    else if d == 3 { '3' }
    else if d == 4 { '4' }
    else if d == 5 { '5' }
    else if d == 6 { '6' }
    else if d == 7 { '7' }
    else if d == 8 { '8' }
    else { '9' }
}

/// The lower-case hexadecimal digit character for `d` (`d < 16`).
pub open spec fn hex_digit(d: nat) -> char {
    if d < 10 { dec_digit(d) }
    else if d == 10 { 'a' }
    else if d == 11 { 'b' }
    else if d == 12 { 'c' }
    else if d == 13 { 'd' }
    else if d == 14 { 'e' }
    else { 'f' }
}

/// The decimal representation of `n`, most significant digit first,
/// without leading zeros (except for `n == 0` itself).
pub open spec fn dec_text(n: nat) -> Seq<char>
    decreases n,
{
    if n < 10 { seq![dec_digit(n)] } else { dec_text(n / 10).push(dec_digit(n % 10)) }
}

/// The decimal representation of a signed integer: a leading `-` for
/// negative values, then the magnitude's digits.
pub open spec fn int_text(i: int) -> Seq<char> {
    if i < 0 { seq!['-'] + dec_text((-i) as nat) } else { dec_text(i as nat) }
}

/// How one character appears inside a JSON string literal: quotes and
/// backslashes get a backslash escape, control characters a `\u00..`
/// escape, and everything else stands as itself.
pub open spec fn escape_char(c: char) -> Seq<char> {
    if c == '"' { seq!['\\', '"'] }
    else if c == '\\' { seq!['\\', '\\'] }
    else if (c as u32) < 32 {
        seq!['\\', 'u', '0', '0', hex_digit(((c as u32) / 16) as nat), hex_digit(((c as u32) % 16) as nat)]
    }
    else { seq![c] }
}

/// The body of a JSON string literal: each character escaped in order.
pub open spec fn escaped_text(s: Seq<char>) -> Seq<char>
    decreases s.len(),
{
    if s.len() == 0 { Seq::empty() } else { escaped_text(s.drop_last()) + escape_char(s.last()) }
}

/// The exact JSON text of a value: no whitespace, object keys in entry
/// order, strings escaped per [`escape_char`].
pub open spec fn json_text(v: JsonValue) -> Seq<char>
    decreases v,
{
    match v {
        JsonValue::Null => "null"@,
        JsonValue::Bool(b) => if b { "true"@ } else { "false"@ },
        JsonValue::Int(i) => int_text(i as int),
        JsonValue::Num(s) => s@,
        JsonValue::Str(s) => seq!['"'] + escaped_text(s@) + seq!['"'],
        JsonValue::Array(items) => seq!['['] + array_body_text(items@) + seq![']'],
        JsonValue::Object(entries) => seq!['{'] + object_body_text(entries@) + seq!['}'],
    }
}

/// The comma-separated element list of a JSON array.
pub open spec fn array_body_text(items: Seq<JsonValue>) -> Seq<char>
    decreases items,
{
    if items.len() == 0 { Seq::<char>::empty() }
    else if items.len() == 1 { json_text(items[0]) }
    else { array_body_text(items.drop_last()) + seq![','] + json_text(items.last()) }
}

/// One `"key":value` member of a JSON object.
pub open spec fn entry_text(e: (String, JsonValue)) -> Seq<char>
    decreases e,
{
    seq!['"'] + escaped_text(e.0@) + seq!['"', ':'] + json_text(e.1)
}

/// The comma-separated member list of a JSON object.
pub open spec fn object_body_text(entries: Seq<(String, JsonValue)>) -> Seq<char>
    decreases entries,
{
    if entries.len() == 0 { Seq::<char>::empty() }
    else if entries.len() == 1 { entry_text(entries[0]) }
    else { object_body_text(entries.drop_last()) + seq![','] + entry_text(entries.last()) }
}

/// Characters that may appear in a pre-rendered number token.
pub open spec fn is_num_char(c: char) -> bool {
    c == '-' || c == '+' || c == '.' || c == 'e' || c == 'E'
        || (48 <= c as u32 && c as u32 <= 57)
}

/// Well-formedness of a JSON value: every `Num` token is non-empty and
/// holds only number-token characters. Values built by the conversion
/// engine from well-formed cells satisfy this.
pub open spec fn wf_json(v: JsonValue) -> bool
    decreases v,
{
    match v {
        JsonValue::Null => true,
        JsonValue::Bool(_) => true,
        JsonValue::Int(_) => true,
        JsonValue::Num(s) => s@.len() > 0 && (forall|i: int| 0 <= i < s@.len() ==> is_num_char(#[trigger] s@[i])),
        JsonValue::Str(_) => true,
        JsonValue::Array(items) => forall|i: int| 0 <= i < items@.len() ==> wf_json(#[trigger] items@[i]),
        JsonValue::Object(entries) => forall|i: int| 0 <= i < entries@.len() ==> wf_json(#[trigger] entries@[i].1),
    }
}

/// Relies on `String::push`: appends the given character at the end of the
/// string.
#[verifier::external_body]
pub(crate) fn push_char(s: &mut String, c: char)
    ensures
        final(s)@ == old(s)@ + seq![c],
{
    s.push(c);
}

/// The decimal digit character for a machine integer below ten.
fn dec_digit_char(d: u64) -> (c: char)
    requires
        d < 10,
    ensures
        c == dec_digit(d as nat),
{
    if d == 0 { '0' }
    else if d == 1 { '1' }
    else if d == 2 { '2' }
    else if d == 3 { '3' }
    else if d == 4 { '4' }
    else if d == 5 { '5' }
    else if d == 6 { '6' }
    else if d == 7 { '7' }
    else if d == 8 { '8' }
    else { '9' }
}

/// The lower-case hexadecimal digit character for a machine integer below
/// sixteen.
fn hex_digit_char(d: u32) -> (c: char)
    requires
        d < 16,
    ensures
        c == hex_digit(d as nat),
{
    if d < 10 { dec_digit_char(d as u64) }
    else if d == 10 { 'a' }
    else if d == 11 { 'b' }
    else if d == 12 { 'c' }
    else if d == 13 { 'd' }
    else if d == 14 { 'e' }
    else { 'f' }
}

/// Appends the decimal digits of `n` to `out`.
fn write_u64(n: u64, out: &mut String)
    ensures
        final(out)@ == old(out)@ + dec_text(n as nat),
    decreases n,
{
    if n < 10 {
        push_char(out, dec_digit_char(n));
    } else {
        write_u64(n / 10, out);
        push_char(out, dec_digit_char(n % 10));
        proof {
            assert(final(out)@ =~= old(out)@ + dec_text(n as nat));
        }
    }
}

/// Appends the decimal representation of `i` to `out`.
fn write_i64(i: i64, out: &mut String)
    ensures
        final(out)@ == old(out)@ + int_text(i as int),
{
    if i < 0 {
        push_char(out, '-');
        let m: u64 = if i == i64::MIN { 9223372036854775808u64 } else { (-i) as u64 };
        write_u64(m, out);
        proof {
            assert(final(out)@ =~= old(out)@ + int_text(i as int));
        }
    } else {
        write_u64(i as u64, out);
    }
}

/// Appends [`escape_char`]`(c)` to `out`.
fn write_escaped_char(c: char, out: &mut String)
    ensures
        final(out)@ == old(out)@ + escape_char(c),
{
    if c == '"' {
        push_char(out, '\\');
        push_char(out, '"');
        proof {
            assert(final(out)@ =~= old(out)@ + escape_char(c));
        }
    } else if c == '\\' {
        push_char(out, '\\');
        push_char(out, '\\');
        proof {
            assert(final(out)@ =~= old(out)@ + escape_char(c));
        }
    } else if (c as u32) < 32 {
        let code: u32 = c as u32;
        push_char(out, '\\');
        push_char(out, 'u');
        push_char(out, '0');
        push_char(out, '0');
        push_char(out, hex_digit_char(code / 16));
        push_char(out, hex_digit_char(code % 16));
        proof {
            assert(final(out)@ =~= old(out)@ + escape_char(c));
        }
    } else {
        push_char(out, c);
    }
}

/// Extending a prefix by one character extends its escaped text by that
/// character's escape.
proof fn lemma_escaped_snoc(s: Seq<char>, i: int)
    requires
        0 <= i < s.len(),
    ensures
        escaped_text(s.take(i + 1)) == escaped_text(s.take(i)) + escape_char(s[i]),
{
    assert(s.take(i + 1).drop_last() =~= s.take(i));
    assert(s.take(i + 1).last() == s[i]);
}

/// Appends the quoted, escaped JSON string literal for `s` to `out`.
pub(crate) fn write_json_str(s: &str, out: &mut String)
    ensures
        final(out)@ == old(out)@ + seq!['"'] + escaped_text(s@) + seq!['"'],
{
    let ghost out0: Seq<char> = out@;
    push_char(out, '"');
    let n: usize = s.unicode_len();
    let mut i: usize = 0;
    while i < n
        invariant
            n == s@.len(),
            0 <= i <= n,
            out@ == out0 + seq!['"'] + escaped_text(s@.take(i as int)),
        decreases n - i,
    {
        let c = s.get_char(i);
        write_escaped_char(c, out);
        proof {
            lemma_escaped_snoc(s@, i as int);
            assert(out@ =~= out0 + seq!['"'] + escaped_text(s@.take(i + 1 as int)));
        }
        i = i + 1;
    }
    proof {
        assert(s@.take(n as int) =~= s@);
    }
    push_char(out, '"');
    proof {
        assert(final(out)@ =~= out0 + seq!['"'] + escaped_text(s@) + seq!['"']);
    }
}

/// Extending an array's element prefix by one element extends the body
/// text by a comma (when not first) and that element's text.
pub(crate) proof fn lemma_array_body_snoc(items: Seq<JsonValue>, i: int)
    requires
        0 <= i < items.len(),
    ensures
        i == 0 ==> array_body_text(items.take(1)) == json_text(items[0]),
        i > 0 ==> array_body_text(items.take(i + 1)) == array_body_text(items.take(i)) + seq![','] + json_text(items[i]),
{
    if i == 0 {
        assert(items.take(1)[0] == items[0]);
    } else {
        assert(items.take(i + 1).drop_last() =~= items.take(i));
        assert(items.take(i + 1).last() == items[i]);
    }
}

/// The object-member analogue of [`lemma_array_body_snoc`].
proof fn lemma_object_body_snoc(entries: Seq<(String, JsonValue)>, i: int)
    requires
        0 <= i < entries.len(),
    ensures
        i == 0 ==> object_body_text(entries.take(1)) == entry_text(entries[0]),
        i > 0 ==> object_body_text(entries.take(i + 1)) == object_body_text(entries.take(i)) + seq![','] + entry_text(entries[i]),
{
    if i == 0 {
        assert(entries.take(1)[0] == entries[0]);
    } else {
        assert(entries.take(i + 1).drop_last() =~= entries.take(i));
        assert(entries.take(i + 1).last() == entries[i]);
    }
}

/// Appends [`json_text`]`(*v)` to `out`.
pub fn write_json(v: &JsonValue, out: &mut String)
    ensures
        final(out)@ == old(out)@ + json_text(*v),
    decreases *v,
{
    match v {
        JsonValue::Null => {
            out.append("null");
        },
        JsonValue::Bool(b) => {
            if *b {
                out.append("true");
            } else {
                out.append("false");
            }
        },
        JsonValue::Int(i) => {
            write_i64(*i, out);
        },
        JsonValue::Num(s) => {
            out.append(s.as_str());
        },
        JsonValue::Str(s) => {
            write_json_str(s.as_str(), out);
        },
        JsonValue::Array(items) => {
            let ghost out0: Seq<char> = out@;
            push_char(out, '[');
            let n: usize = items.len();
            let mut i: usize = 0;
            while i < n
                invariant
                    n == items@.len(),
                    0 <= i <= n,
                    *v == JsonValue::Array(*items),
                    out@ == out0 + seq!['['] + array_body_text(items@.take(i as int)),
                decreases n - i,
            {
                if i > 0 {
                    push_char(out, ',');
                }
                proof {
                    assert(decreases_to!(*v => (*v)->Array_0));
                    assert((*v)->Array_0 == *items);
                    assert(decreases_to!(*items => items@));
                    assert(decreases_to!(items@ => items@[i as int]));
                }
                write_json(&items[i], out);
                proof {
                    lemma_array_body_snoc(items@, i as int);
                    assert(out@ =~= out0 + seq!['['] + array_body_text(items@.take(i + 1 as int)));
                }
                i = i + 1;
            }
            proof {
                assert(items@.take(n as int) =~= items@);
            }
            push_char(out, ']');
            proof {
                assert(final(out)@ =~= out0 + json_text(*v));
            }
        },
        JsonValue::Object(entries) => {
            let ghost out0: Seq<char> = out@;
            push_char(out, '{');
            let n: usize = entries.len();
            let mut i: usize = 0;
            while i < n
                invariant
                    n == entries@.len(),
                    0 <= i <= n,
                    *v == JsonValue::Object(*entries),
                    out@ == out0 + seq!['{'] + object_body_text(entries@.take(i as int)),
                decreases n - i,
            {
                if i > 0 {
                    push_char(out, ',');
                }
                let ghost e: (String, JsonValue) = entries@[i as int];
                let entry = &entries[i];
                write_json_str(entry.0.as_str(), out);
                push_char(out, ':');
                proof {
                    assert(decreases_to!(*v => (*v)->Object_0));
                    assert((*v)->Object_0 == *entries);
                    assert(decreases_to!(*entries => entries@));
                    assert(decreases_to!(entries@ => entries@[i as int]));
                    assert(decreases_to!(entries@[i as int] => entries@[i as int].1));
                }
                write_json(&entry.1, out);
                proof {
                    lemma_object_body_snoc(entries@, i as int);
                    assert(seq!['"'] + escaped_text(e.0@) + seq!['"'] + seq![':'] + json_text(e.1)
                        =~= entry_text(e));
                    assert(out@ =~= out0 + seq!['{'] + object_body_text(entries@.take(i + 1 as int)));
                }
                i = i + 1;
            }
            proof {
                assert(entries@.take(n as int) =~= entries@);
            }
            push_char(out, '}');
            proof {
                assert(final(out)@ =~= out0 + json_text(*v));
            }
        },
    }
}

/// The JSON text of `v`, as a fresh string.
pub fn json_to_string(v: &JsonValue) -> (r: String)
    ensures
        r@ == json_text(*v),
{
    let mut out = String::new();
    write_json(v, &mut out);
    out
}

/// Holds when no character of `s` is a newline.
pub open spec fn no_newline(s: Seq<char>) -> bool {
    forall|i: int| 0 <= i < s.len() ==> s[i] != '\n'
}

/// The number of occurrences of `c` in `s`.
pub open spec fn count_char(s: Seq<char>, c: char) -> nat
    decreases s.len(),
{
    if s.len() == 0 { 0 } else {
        count_char(s.drop_last(), c) + (if s.last() == c { 1nat } else { 0nat })
    }
}

/// Occurrence counts add up over concatenation.
pub proof fn lemma_count_char_concat(a: Seq<char>, b: Seq<char>, c: char)
    ensures
        count_char(a + b, c) == count_char(a, c) + count_char(b, c),
    decreases b.len(),
{
    if b.len() == 0 {
        assert(a + b =~= a);
    } else {
        assert((a + b).drop_last() =~= a + b.drop_last());
        lemma_count_char_concat(a, b.drop_last(), c);
    }
}

/// A newline-free text has a newline count of zero.
pub proof fn lemma_no_newline_count(s: Seq<char>)
    requires
        no_newline(s),
    ensures
        count_char(s, '\n') == 0,
    decreases s.len(),
{
    if s.len() > 0 {
        lemma_no_newline_count(s.drop_last());
    }
}

proof fn lemma_dec_text_no_newline(n: nat)
    ensures
        no_newline(dec_text(n)),
    decreases n,
{
    if n >= 10 {
        lemma_dec_text_no_newline(n / 10);
    }
}

pub(crate) proof fn lemma_escaped_text_no_newline(s: Seq<char>)
    ensures
        no_newline(escaped_text(s)),
    decreases s.len(),
{
    if s.len() > 0 {
        lemma_escaped_text_no_newline(s.drop_last());
    }
}

/// The serialized form of a well-formed JSON value holds no newline:
/// strings are escaped, numbers are digits and signs, and the fixed
/// punctuation is newline-free. This is what makes the line-oriented
/// output formats sound: one value per line, always.
pub proof fn lemma_json_text_no_newline(v: JsonValue)
    requires
        wf_json(v),
    ensures
        no_newline(json_text(v)),
    decreases v,
{
    reveal_strlit("null");
    reveal_strlit("true");
    reveal_strlit("false");
    match v {
        JsonValue::Null => {},
        JsonValue::Bool(_) => {},
        JsonValue::Int(i) => {
            if (i as int) < 0 {
                lemma_dec_text_no_newline((-(i as int)) as nat);
            } else {
                lemma_dec_text_no_newline(i as nat);
            }
        },
        JsonValue::Num(_) => {},
        JsonValue::Str(s) => {
            lemma_escaped_text_no_newline(s@);
        },
        JsonValue::Array(items) => {
            lemma_array_body_no_newline(items@);
        },
        JsonValue::Object(entries) => {
            lemma_object_body_no_newline(entries@);
        },
    }
}

pub(crate) proof fn lemma_array_body_no_newline(items: Seq<JsonValue>)
    requires
        forall|i: int| 0 <= i < items.len() ==> wf_json(#[trigger] items[i]),
    ensures
        no_newline(array_body_text(items)),
    decreases items,
{
    if items.len() == 1 {
        lemma_json_text_no_newline(items[0]);
    } else if items.len() > 1 {
        lemma_array_body_no_newline(items.drop_last());
        lemma_json_text_no_newline(items.last());
    }
}

proof fn lemma_object_body_no_newline(entries: Seq<(String, JsonValue)>)
    requires
        forall|i: int| 0 <= i < entries.len() ==> wf_json(#[trigger] entries[i].1),
    ensures
        no_newline(object_body_text(entries)),
    decreases entries,
{
    if entries.len() == 1 {
        lemma_entry_no_newline(entries[0]);
    } else if entries.len() > 1 {
        lemma_object_body_no_newline(entries.drop_last());
        lemma_entry_no_newline(entries.last());
    }
}

proof fn lemma_entry_no_newline(e: (String, JsonValue))
    requires
        wf_json(e.1),
    ensures
        no_newline(entry_text(e)),
    decreases e,
{
    lemma_escaped_text_no_newline(e.0@);
    lemma_json_text_no_newline(e.1);
}

} // verus!
