//! The connection negotiator's decision logic.
//!
//! A database URI may carry an `sslmode` query parameter. This module
//! parses it, applies the recognized-mode table, and produces a
//! [`ConnectPlan`]: whether to attempt an encrypted connection first, the
//! URI to use for that attempt, and whether a failed encrypted attempt may
//! fall back to plaintext. The caller performs the actual network
//! connections and follows the plan; every decision stands here.

use vstd::prelude::*;
use vstd::string::StrSliceExecFns;
use vstd::string::StringExecFns;
use crate::error::SqlError;

verus! {

/// The index of the first occurrence of `c` in `s`, or `s.len()` when `c`
/// does not occur.
pub open spec fn index_of(s: Seq<char>, c: char) -> int
    decreases s.len(),
{
    if s.len() == 0 {
        0
    } else if s[0] == c {
        0
    } else {
        1 + index_of(s.skip(1), c)
    }
}

/// [`index_of`] is in bounds, points at `c` when `c` occurs, and nothing
/// before it is `c`.
pub proof fn lemma_index_of(s: Seq<char>, c: char)
    ensures
        0 <= index_of(s, c) <= s.len(),
        index_of(s, c) < s.len() ==> s[index_of(s, c)] == c,
        forall|j: int| 0 <= j < index_of(s, c) ==> s[j] != c,
    decreases s.len(),
{
    if s.len() > 0 && s[0] != c {
        lemma_index_of(s.skip(1), c);
        assert forall|j: int| 0 <= j < index_of(s, c) implies s[j] != c by {
            if j > 0 {
                assert(s[j] == s.skip(1)[j - 1]);
            }
        }
    }
}

/// The query component of a URI: everything after the first `?`, cut
/// short at the first `#` that follows it; empty when there is no `?`.
pub open spec fn query_of(uri: Seq<char>) -> Seq<char> {
    let q = index_of(uri, '?');
    if q == uri.len() {
        Seq::<char>::empty()
    } else {
        let rest = uri.skip(q + 1);
        rest.take(index_of(rest, '#'))
    }
}

/// Splits `s` on `c`. The result always has at least one part; an empty
/// `s` gives one empty part.
pub open spec fn split_on(s: Seq<char>, c: char) -> Seq<Seq<char>>
    decreases s.len(),
{
    let i = index_of(s, c);
    if !(0 <= i < s.len()) {
        seq![s]
    } else {
        seq![s.take(i)] + split_on(s.skip(i + 1), c)
    }
}

/// The key of one query parameter: everything before the first `=`.
pub open spec fn param_key(p: Seq<char>) -> Seq<char> {
    p.take(index_of(p, '='))
}

/// The value of one query parameter: everything after the first `=`, or
/// empty when there is no `=`.
pub open spec fn param_value(p: Seq<char>) -> Seq<char> {
    if index_of(p, '=') == p.len() {
        Seq::<char>::empty()
    } else {
        p.skip(index_of(p, '=') + 1)
    }
}

/// The value of the first parameter whose key is `key`, if any.
pub open spec fn first_value(params: Seq<Seq<char>>, key: Seq<char>) -> Option<Seq<char>>
    decreases params.len(),
{
    if params.len() == 0 {
        None
    } else if param_key(params[0]) == key {
        Some(param_value(params[0]))
    } else {
        first_value(params.skip(1), key)
    }
}

/// The raw value of the URI's first `sslmode` query parameter, if any.
pub open spec fn sslmode_of_uri(uri: Seq<char>) -> Option<Seq<char>> {
    first_value(split_on(query_of(uri), '&'), "sslmode"@)
}

/// An ASCII whitespace character.
pub open spec fn is_space_char(c: char) -> bool {
    c == ' ' || c == '\t' || c == '\n' || c == '\r' || c == '\u{b}' || c == '\u{c}'
}

/// Holds when `s` is empty or all whitespace.
pub open spec fn is_blank(s: Seq<char>) -> bool {
    forall|i: int| 0 <= i < s.len() ==> is_space_char(#[trigger] s[i])
}

/// The URI's effective `sslmode`: the first `sslmode` parameter's value,
/// with a blank value treated the same as an absent parameter.
pub open spec fn effective_sslmode(uri: Seq<char>) -> Option<Seq<char>> {
    match sslmode_of_uri(uri) {
        None => None,
        Some(v) => if is_blank(v) {
            None
        } else {
            Some(v)
        },
    }
}

/// The transport-security policy an `sslmode` requests: whether to try an
/// encrypted connection, and whether encryption is mandatory.
#[derive(Clone, Copy, Debug, PartialEq, Eq, Structural)]
pub struct SslPolicy {
    pub try_tls: bool,
    pub require_tls: bool,
}

/// The recognized-mode table. `disable` never tries encryption; `allow`,
/// `prefer` and an absent mode try it without requiring it; `require`,
/// `verify-ca` and `verify-full` require it; anything else is
/// unrecognized (`None`).
pub open spec fn mode_policy(m: Option<Seq<char>>) -> Option<SslPolicy> {
    match m {
        None => Some(SslPolicy { try_tls: true, require_tls: false }),
        Some(v) => if v == "disable"@ {
            Some(SslPolicy { try_tls: false, require_tls: false })
        } else if v == "allow"@ || v == "prefer"@ {
            Some(SslPolicy { try_tls: true, require_tls: false })
        } else if v == "require"@ || v == "verify-ca"@ || v == "verify-full"@ {
            Some(SslPolicy { try_tls: true, require_tls: true })
        } else {
            None
        },
    }
}

/// Character-wise string equality, meaning equality of the views.
pub fn str_eq(a: &str, b: &str) -> (r: bool)
    ensures
        r == (a@ == b@),
{
    let na: usize = a.unicode_len();
    let nb: usize = b.unicode_len();
    if na != nb {
        return false;
    }
    let mut i: usize = 0;
    while i < na
        invariant
            na == a@.len(),
            na == b@.len(),
            0 <= i <= na,
            forall|j: int| 0 <= j < i ==> a@[j] == b@[j],
        decreases na - i,
    {
        if a.get_char(i) != b.get_char(i) {
            return false;
        }
        i = i + 1;
    }
    proof {
        assert(a@ =~= b@);
    }
    true
}

/// The index of the first occurrence of `c` in `s`, or `s`'s length.
fn index_of_str(s: &str, c: char) -> (i: usize)
    ensures
        i as int == index_of(s@, c),
    decreases s@.len(),
{
    proof {
        lemma_index_of(s@, c);
    }
    let n: usize = s.unicode_len();
    if n == 0 {
        0
    } else if s.get_char(0) == c {
        0
    } else {
        let rest = s.substring_char(1, n);
        proof {
            assert(rest@ =~= s@.skip(1));
            lemma_index_of(rest@, c);
        }
        1 + index_of_str(rest, c)
    }
}

/// The query component of the URI, per [`query_of`].
fn query_str<'a>(uri: &'a str) -> (q: &'a str)
    ensures
        q@ == query_of(uri@),
{
    let n: usize = uri.unicode_len();
    let qm = index_of_str(uri, '?');
    proof {
        lemma_index_of(uri@, '?');
    }
    if qm == n {
        let empty = "";
        proof {
            reveal_strlit("");
            assert(empty@ =~= query_of(uri@));
        }
        empty
    } else {
        let rest = uri.substring_char(qm + 1, n);
        proof {
            assert(rest@ =~= uri@.skip(qm + 1));
            lemma_index_of(rest@, '#');
        }
        let h = index_of_str(rest, '#');
        let out = rest.substring_char(0, h);
        proof {
            assert(out@ =~= query_of(uri@));
        }
        out
    }
}

/// The value of the first parameter of `q` whose key is `key`, per
/// [`first_value`] over [`split_on`].
fn first_param_value(q: &str, key: &str) -> (r: Option<String>)
    ensures
        match r {
            Some(v) => first_value(split_on(q@, '&'), key@) == Some(v@),
            None => first_value(split_on(q@, '&'), key@) == None::<Seq<char>>,
        },
    decreases q@.len(),
{
    let n: usize = q.unicode_len();
    let amp = index_of_str(q, '&');
    proof {
        lemma_index_of(q@, '&');
    }
    let part = q.substring_char(0, amp);
    proof {
        assert(part@ =~= q@.take(amp as int));
        if amp == n {
            assert(part@ =~= q@);
            assert(split_on(q@, '&') == seq![q@]);
            assert(split_on(q@, '&')[0] == q@);
        } else {
            assert(split_on(q@, '&') == seq![q@.take(amp as int)] + split_on(
                q@.skip(amp + 1),
                '&',
            ));
            assert(split_on(q@, '&')[0] == part@);
        }
    }
    let pn: usize = part.unicode_len();
    let eq = index_of_str(part, '=');
    proof {
        lemma_index_of(part@, '=');
    }
    let k = part.substring_char(0, eq);
    proof {
        assert(k@ =~= part@.take(eq as int));
        assert(k@ == param_key(part@));
    }
    if str_eq(k, key) {
        let v: String = if eq == pn {
            proof {
                assert(param_value(part@) =~= Seq::<char>::empty());
            }
            String::new()
        } else {
            let vs = part.substring_char(eq + 1, pn);
            proof {
                assert(vs@ =~= part@.skip(eq + 1));
                assert(vs@ == param_value(part@));
            }
            vs.to_owned()
        };
        proof {
            if amp == n {
                assert(first_value(split_on(q@, '&'), key@) == Some(param_value(q@)));
            } else {
                assert(first_value(split_on(q@, '&'), key@) == Some(param_value(part@)));
            }
            assert(v@ == param_value(part@));
            assert(first_value(split_on(q@, '&'), key@) == Some(v@));
        }
        Some(v)
    } else if amp == n {
        proof {
            assert(first_value(split_on(q@, '&'), key@) == None::<Seq<char>>);
        }
        None
    } else {
        let rest = q.substring_char(amp + 1, n);
        proof {
            assert(rest@ =~= q@.skip(amp + 1));
            assert(split_on(q@, '&').skip(1) =~= split_on(rest@, '&'));
            assert(param_key(split_on(q@, '&')[0]) != key@);
            assert(first_value(split_on(q@, '&'), key@) == first_value(
                split_on(q@, '&').skip(1),
                key@,
            ));
            assert(first_value(split_on(q@, '&'), key@) == first_value(split_on(rest@, '&'), key@));
        }
        first_param_value(rest, key)
    }
}

/// The raw value of the URI's first `sslmode` parameter, per
/// [`sslmode_of_uri`].
pub fn sslmode_value(uri: &str) -> (r: Option<String>)
    ensures
        match r {
            Some(v) => sslmode_of_uri(uri@) == Some(v@),
            None => sslmode_of_uri(uri@) == None::<Seq<char>>,
        },
{
    first_param_value(query_str(uri), "sslmode")
}

/// The transport-security policy requested by the URI, or the
/// unsupported-sslmode error when the requested mode is unrecognized.
/// This is a pure decision: no network is touched.
pub fn ssl_policy_of_uri(uri: &str) -> (r: Result<SslPolicy, SqlError>)
    ensures
        match r {
            Ok(p) => mode_policy(effective_sslmode(uri@)) == Some(p),
            Err(e) => {
                &&& mode_policy(effective_sslmode(uri@)) == None::<SslPolicy>
                &&& e matches SqlError::UnsupportedSslMode { mode } && Some(mode@)
                    == effective_sslmode(uri@)
            },
        },
{
    match sslmode_value(uri) {
        None => Ok(SslPolicy { try_tls: true, require_tls: false }),
        Some(v) => {
            if is_blank_str(v.as_str()) {
                Ok(SslPolicy { try_tls: true, require_tls: false })
            } else if str_eq(v.as_str(), "disable") {
                Ok(SslPolicy { try_tls: false, require_tls: false })
            } else if str_eq(v.as_str(), "allow") || str_eq(v.as_str(), "prefer") {
                Ok(SslPolicy { try_tls: true, require_tls: false })
            } else if str_eq(v.as_str(), "require") || str_eq(v.as_str(), "verify-ca") || str_eq(
                v.as_str(),
                "verify-full",
            ) {
                Ok(SslPolicy { try_tls: true, require_tls: true })
            } else {
                Err(SqlError::UnsupportedSslMode { mode: v })
            }
        },
    }
}

/// The URI to use for an encrypted connection attempt: unchanged when the
/// URI carries an effective `sslmode`, otherwise with `sslmode=require`
/// appended so the transport layer performs an encrypted handshake.
pub open spec fn tls_uri_text(uri: Seq<char>) -> Seq<char> {
    if effective_sslmode(uri) matches Some(_) {
        uri
    } else if index_of(uri, '?') < uri.len() {
        uri + "&sslmode=require"@
    } else {
        uri + "?sslmode=require"@
    }
}

/// Builds [`tls_uri_text`] of the URI.
pub fn tls_attempt_uri(uri: &str) -> (r: String)
    ensures
        r@ == tls_uri_text(uri@),
{
    let explicit: bool = match sslmode_value(uri) {
        None => false,
        Some(v) => !is_blank_str(v.as_str()),
    };
    if explicit {
        uri.to_owned()
    } else {
        let n: usize = uri.unicode_len();
        proof {
            lemma_index_of(uri@, '?');
        }
        let qm = index_of_str(uri, '?');
        let mut out = uri.to_owned();
        if qm < n {
            out.append("&sslmode=require");
        } else {
            out.append("?sslmode=require");
        }
        out
    }
}

/// The complete connection plan for a URI: whether to attempt an
/// encrypted connection first, the URI for that attempt, and whether a
/// failed encrypted attempt may fall back to plaintext (it never may when
/// encryption is required).
#[derive(Debug, PartialEq, Eq)]
pub struct ConnectPlan {
    pub try_tls: bool,
    pub tls_uri: String,
    pub plain_fallback: bool,
}

/// `p` is the plan the URI's effective `sslmode` calls for.
pub open spec fn plan_ok(uri: Seq<char>, p: ConnectPlan) -> bool {
    match mode_policy(effective_sslmode(uri)) {
        Some(pol) => {
            &&& p.try_tls == pol.try_tls
            &&& p.plain_fallback == !pol.require_tls
            &&& p.tls_uri@ == tls_uri_text(uri)
        },
        None => false,
    }
}

/// Decides the connection plan for a URI, or rejects an unrecognized
/// `sslmode` before any network attempt.
pub fn connect_plan(uri: &str) -> (r: Result<ConnectPlan, SqlError>)
    ensures
        match r {
            Ok(p) => plan_ok(uri@, p),
            Err(e) => {
                &&& mode_policy(effective_sslmode(uri@)) == None::<SslPolicy>
                &&& e matches SqlError::UnsupportedSslMode { mode } && Some(mode@)
                    == effective_sslmode(uri@)
            },
        },
{
    let policy = match ssl_policy_of_uri(uri) {
        Ok(p) => p,
        Err(e) => {
            return Err(e);
        },
    };
    let tls_uri = tls_attempt_uri(uri);
    Ok(ConnectPlan { try_tls: policy.try_tls, tls_uri, plain_fallback: !policy.require_tls })
}

/// An `sslmode` outside the recognized set has no policy: the request is
/// rejected before any network attempt is made.
pub proof fn lemma_unrecognized_sslmode_rejected(uri: Seq<char>, m: Seq<char>)
    requires
        effective_sslmode(uri) == Some(m),
        m != "disable"@,
        m != "allow"@,
        m != "prefer"@,
        m != "require"@,
        m != "verify-ca"@,
        m != "verify-full"@,
    ensures
        mode_policy(effective_sslmode(uri)) == None::<SslPolicy>,
        forall|p: ConnectPlan| !plan_ok(uri, p),
{
}

/// Under a mode that requires encryption, the plan tries an encrypted
/// connection and never falls back to plaintext.
pub proof fn lemma_require_never_falls_back(uri: Seq<char>, p: ConnectPlan)
    requires
        plan_ok(uri, p),
        effective_sslmode(uri) == Some("require"@) || effective_sslmode(uri) == Some("verify-ca"@)
            || effective_sslmode(uri) == Some("verify-full"@),
    ensures
        p.try_tls,
        !p.plain_fallback,
{
    reveal_strlit("disable");
    reveal_strlit("allow");
    reveal_strlit("prefer");
    reveal_strlit("require");
    reveal_strlit("verify-ca");
    reveal_strlit("verify-full");
    assert("require"@[0] != "disable"@[0]);
    assert("require"@.len() != "allow"@.len());
    assert("require"@.len() != "prefer"@.len());
    assert("verify-ca"@.len() != "disable"@.len());
    assert("verify-ca"@.len() != "allow"@.len());
    assert("verify-ca"@.len() != "prefer"@.len());
    assert("verify-full"@.len() != "disable"@.len());
    assert("verify-full"@.len() != "allow"@.len());
    assert("verify-full"@.len() != "prefer"@.len());
}

/// Under `sslmode=disable`, no encrypted connection is ever attempted.
pub proof fn lemma_disable_never_tries_tls(uri: Seq<char>, p: ConnectPlan)
    requires
        plan_ok(uri, p),
        effective_sslmode(uri) == Some("disable"@),
    ensures
        !p.try_tls,
{
}

fn is_blank_str(s: &str) -> (r: bool)
    ensures
        r == is_blank(s@),
{
    let n: usize = s.unicode_len();
    let mut i: usize = 0;
    while i < n
        invariant
            n == s@.len(),
            0 <= i <= n,
            forall|j: int| 0 <= j < i ==> is_space_char(#[trigger] s@[j]),
        decreases n - i,
    {
        let c = s.get_char(i);
        if !(c == ' ' || c == '\t' || c == '\n' || c == '\r' || c == '\u{b}' || c == '\u{c}') {
            return false;
        }
        i = i + 1;
    }
    true
}

} // verus!
