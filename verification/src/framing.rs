//! The message framer: parses a received buffer into a structured request
//! and serializes requests and responses into wire text.
//!
//! The wire format is line-delimited: lines are separated by CRLF, the first
//! line is the request line (method, target and a version token, whitespace
//! separated), the following lines up to the first empty line are headers,
//! and the body is the last line of the whole buffer.
//!
//! One deliberate quirk is preserved: a serialized request declares a
//! `Content-Length` header, but the parser never consults it — the body is
//! always the last line.  The round-trip law below holds exactly because
//! both sides agree on that rule.

use vstd::prelude::*;
use vstd::string::*;
use vstd::utf8::encode_utf8;

use crate::error::ParseError;
use crate::headers::{headers_of, parse_headers, HeaderMap};
use crate::text::{
    contains2, dec_str, find2, find_ws, first2_from, first_ws_from, is_ws, lemma_dec_str_digits,
    lemma_first2_from_spec, lemma_first_ws_from_spec, lemma_no_c0_no_pair, ws_char,
};

verus! {

/// The most bytes a request or response may occupy on the wire: each side
/// performs a single bounded read, so a message whose request line and
/// headers do not fit in one read fails to parse.
pub const MAX_MESSAGE_SIZE: usize = 1024;

/// The lines of `s`: split on every CRLF occurrence, front to back.  A
/// buffer without CRLF is one line, so the result is never empty.
pub open spec fn lines_of(s: Seq<char>) -> Seq<Seq<char>>
    decreases s.len(),
    via lines_of_decreases
{
    match first2_from(s, '\r', '\n', 0) {
        Some(i) => seq![s.take(i)] + lines_of(s.skip(i + 2)),
        None => seq![s],
    }
}

#[via_fn]
proof fn lines_of_decreases(s: Seq<char>) {
    lemma_first2_from_spec(s, '\r', '\n', 0);
}

/// The whitespace-separated tokens of `s`, front to back, with empty tokens
/// dropped.
pub open spec fn tokens_of(s: Seq<char>) -> Seq<Seq<char>>
    decreases s.len(),
    via tokens_of_decreases
{
    if s.len() == 0 {
        Seq::empty()
    } else if is_ws(s[0]) {
        tokens_of(s.drop_first())
    } else {
        match first_ws_from(s, 0) {
            Some(j) => seq![s.take(j)] + tokens_of(s.skip(j)),
            None => seq![s],
        }
    }
}

#[via_fn]
proof fn tokens_of_decreases(s: Seq<char>) {
    lemma_first_ws_from_spec(s, 0);
}

/// Splits `s` into its lines on every CRLF occurrence.
pub fn split_crlf(s: &str) -> (r: Vec<String>)
    ensures
        r.deep_view() == lines_of(s@),
        r@.len() >= 1,
    decreases s@.len(),
{
    match find2(s, '\r', '\n') {
        None => {
            let mut v: Vec<String> = Vec::new();
            v.push(s.to_owned());
            proof {
                assert(v.deep_view() =~= lines_of(s@));
            }
            v
        },
        Some(i) => {
            proof {
                lemma_first2_from_spec(s@, '\r', '\n', 0);
            }
            let n = s.unicode_len();
            let head = s.substring_char(0, i);
            let tail = s.substring_char(i + 2, n);
            proof {
                assert(tail@ =~= s@.skip(i + 2));
            }
            let mut rest = split_crlf(tail);
            rest.insert(0, head.to_owned());
            proof {
                assert(head@ =~= s@.take(i as int));
                assert(rest.deep_view() =~= lines_of(s@));
            }
            rest
        },
    }
}

/// Splits `s` into its whitespace-separated tokens.
pub fn split_tokens(s: &str) -> (r: Vec<String>)
    ensures
        r.deep_view() == tokens_of(s@),
    decreases s@.len(),
{
    let n = s.unicode_len();
    if n == 0 {
        let v: Vec<String> = Vec::new();
        proof {
            assert(v.deep_view() =~= tokens_of(s@));
        }
        return v;
    }
    let c = s.get_char(0);
    if ws_char(c) {
        let tail = s.substring_char(1, n);
        proof {
            assert(tail@ =~= s@.drop_first());
        }
        return split_tokens(tail);
    }
    match find_ws(s) {
        None => {
            let mut v: Vec<String> = Vec::new();
            v.push(s.to_owned());
            proof {
                assert(v.deep_view() =~= tokens_of(s@));
            }
            v
        },
        Some(j) => {
            proof {
                lemma_first_ws_from_spec(s@, 0);
            }
            let head = s.substring_char(0, j);
            let tail = s.substring_char(j, n);
            proof {
                assert(tail@ =~= s@.skip(j as int));
            }
            let mut rest = split_tokens(tail);
            rest.insert(0, head.to_owned());
            proof {
                assert(head@ =~= s@.take(j as int));
                assert(rest.deep_view() =~= tokens_of(s@));
            }
            rest
        },
    }
}

/// The mathematical shape of a parsed request.
pub ghost struct SpecRequest {
    pub method: Seq<char>,
    pub target: Seq<char>,
    pub headers: Map<Seq<char>, Seq<char>>,
    pub body: Seq<char>,
}

/// A parsed request: method token, target, header mapping and body.
#[derive(Debug)]
pub struct Request {
    pub method: String,
    pub target: String,
    pub headers: HeaderMap,
    pub body: String,
}

impl View for Request {
    type V = SpecRequest;

    open spec fn view(&self) -> SpecRequest {
        SpecRequest {
            method: self.method@,
            target: self.target@,
            headers: self.headers@,
            body: self.body@,
        }
    }
}

/// What parsing a list of lines yields.  No lines at all is a malformed
/// request; a request line with fewer than two tokens is a malformed request
/// line; otherwise the first two tokens are method and target (a version
/// token, if present, is ignored), the following lines up to the first empty
/// line are headers, and the body is the last line.
pub open spec fn parse_request_lines_spec(lines: Seq<Seq<char>>) -> Result<
    SpecRequest,
    ParseError,
> {
    if lines.len() < 1 {
        Err(ParseError::MalformedRequest)
    } else {
        let toks = tokens_of(lines[0]);
        if toks.len() < 2 {
            Err(ParseError::MalformedRequestLine)
        } else {
            Ok(
                SpecRequest {
                    method: toks[0],
                    target: toks[1],
                    headers: headers_of(lines.drop_first()),
                    body: lines.last(),
                },
            )
        }
    }
}

/// What parsing a raw buffer yields: the buffer is split into lines on CRLF
/// and the lines are parsed.
pub open spec fn parse_request_spec(buf: Seq<char>) -> Result<SpecRequest, ParseError> {
    parse_request_lines_spec(lines_of(buf))
}

/// Parses a request from its list of lines.
pub fn parse_request_lines(lines: &Vec<String>) -> (r: Result<Request, ParseError>)
    ensures
        match (r, parse_request_lines_spec(lines.deep_view())) {
            (Ok(req), Ok(s)) => req@ == s,
            (Err(e), Err(se)) => e == se,
            _ => false,
        },
{
    if lines.len() < 1 {
        return Err(ParseError::MalformedRequest);
    }
    proof {
        assert(lines.deep_view()[0] == lines@[0]@);
    }
    let toks = split_tokens(lines[0].as_str());
    if toks.len() < 2 {
        return Err(ParseError::MalformedRequestLine);
    }
    proof {
        assert(toks.deep_view()[0] == toks@[0]@);
        assert(toks.deep_view()[1] == toks@[1]@);
        assert(lines.deep_view().skip(1) =~= lines.deep_view().drop_first());
        assert(lines.deep_view().last() == lines@[lines@.len() - 1]@);
    }
    let method = toks[0].clone();
    let target = toks[1].clone();
    let headers = parse_headers(lines, 1);
    let body = lines[lines.len() - 1].clone();
    Ok(Request { method, target, headers, body })
}

/// Parses a raw request buffer into a structured request.
pub fn parse_request(buf: &str) -> (r: Result<Request, ParseError>)
    ensures
        match (r, parse_request_spec(buf@)) {
            (Ok(req), Ok(s)) => req@ == s,
            (Err(e), Err(se)) => e == se,
            _ => false,
        },
{
    let lines = split_crlf(buf);
    parse_request_lines(&lines)
}

/// The wire text of a response: status line, CRLF, the fixed content-type
/// header, an empty line, then the body.
pub open spec fn serialize_response_spec(status: Seq<char>, body: Seq<char>) -> Seq<char> {
    status + "\r\n"@ + "Content-Type: text/plain"@ + "\r\n"@ + "\r\n"@ + body
}

/// Serializes a response from its status line and body.
pub fn serialize_response(status: &str, body: &str) -> (r: String)
    ensures
        r@ == serialize_response_spec(status@, body@),
{
    let mut out = status.to_owned();
    out.append("\r\n");
    out.append("Content-Type: text/plain");
    out.append("\r\n");
    out.append("\r\n");
    out.append(body);
    out
}

/// The byte length of `s` in its UTF-8 encoding, as a machine word.
pub open spec fn byte_len(s: Seq<char>) -> int {
    (encode_utf8(s).len() as usize) as int
}

/// The wire text of a request: method, target and the fixed version token,
/// whitespace separated; CRLF; a content-length header giving the body's
/// byte length; an empty line; then the body.
pub open spec fn serialize_request_spec(method: Seq<char>, target: Seq<char>, body: Seq<char>)
    -> Seq<char> {
    method + " "@ + target + " "@ + "MVRP/1.0"@ + "\r\n"@ + "Content-Length: "@ + crate::text::dec_str(
        byte_len(body),
    ) + "\r\n"@ + "\r\n"@ + body
}

/// In `line + CRLF + rest`, with no CRLF inside `line`, the first CRLF
/// occurrence at or after `i` is exactly the delimiter after `line`.
proof fn lemma_first2_at_boundary(line: Seq<char>, rest: Seq<char>, i: int)
    requires
        0 <= i <= line.len(),
        !contains2(line, '\r', '\n'),
    ensures
        first2_from(line + "\r\n"@ + rest, '\r', '\n', i) == Some(line.len() as int),
    decreases line.len() - i,
{
    reveal_strlit("\r\n");
    let s = line + "\r\n"@ + rest;
    assert(s.len() == line.len() + 2 + rest.len());
    if i == line.len() {
        assert(s[i] == '\r');
        assert(s[i + 1] == '\n');
    } else {
        assert(s[i] == line[i]);
        if i + 1 < line.len() {
            assert(s[i + 1] == line[i + 1]);
            if s[i] == '\r' && s[i + 1] == '\n' {
                assert(line[i] == '\r' && line[i + 1] == '\n');
                assert(contains2(line, '\r', '\n'));
            }
        } else {
            assert(s[i + 1] == '\r');
        }
        lemma_first2_at_boundary(line, rest, i + 1);
    }
}

/// Splitting `line + CRLF + rest` on CRLF peels off `line` first, when
/// `line` itself holds no CRLF.
proof fn lemma_lines_prepend(line: Seq<char>, rest: Seq<char>)
    requires
        !contains2(line, '\r', '\n'),
    ensures
        lines_of(line + "\r\n"@ + rest) == seq![line] + lines_of(rest),
{
    reveal_strlit("\r\n");
    let s = line + "\r\n"@ + rest;
    lemma_first2_at_boundary(line, rest, 0);
    assert(s.take(line.len() as int) =~= line);
    assert(s.skip(line.len() as int + 2) =~= rest);
}

/// A buffer without CRLF is a single line.
proof fn lemma_lines_single(s: Seq<char>)
    requires
        !contains2(s, '\r', '\n'),
    ensures
        lines_of(s) == seq![s],
{
    lemma_first2_from_spec(s, '\r', '\n', 0);
    if first2_from(s, '\r', '\n', 0) matches Some(j) {
        assert(contains2(s, '\r', '\n'));
    }
}

/// In `w + rest`, with `w` free of whitespace, the first whitespace at or
/// after `i` is the head of `rest`, if `rest` is there at all.
proof fn lemma_first_ws_at_boundary(w: Seq<char>, rest: Seq<char>, i: int)
    requires
        0 <= i <= w.len(),
        forall|k: int| 0 <= k < w.len() ==> !is_ws(#[trigger] w[k]),
        rest.len() == 0 || is_ws(rest[0]),
    ensures
        first_ws_from(w + rest, i) == if rest.len() == 0 {
            None::<int>
        } else {
            Some(w.len() as int)
        },
    decreases w.len() - i,
{
    let s = w + rest;
    if i == w.len() {
        if rest.len() > 0 {
            assert(s[i] == rest[0]);
        }
    } else {
        assert(s[i] == w[i]);
        lemma_first_ws_at_boundary(w, rest, i + 1);
    }
}

/// Tokenizing `w + rest` peels off the word `w` first, when `w` is
/// nonempty and free of whitespace and `rest` is empty or opens with
/// whitespace.
proof fn lemma_tokens_word(w: Seq<char>, rest: Seq<char>)
    requires
        w.len() > 0,
        forall|k: int| 0 <= k < w.len() ==> !is_ws(#[trigger] w[k]),
        rest.len() == 0 || is_ws(rest[0]),
    ensures
        tokens_of(w + rest) == seq![w] + tokens_of(rest),
{
    let s = w + rest;
    assert(s[0] == w[0]);
    lemma_first_ws_at_boundary(w, rest, 0);
    if rest.len() == 0 {
        assert(s =~= w);
        assert(tokens_of(s) == seq![s]);
        assert(tokens_of(rest) =~= Seq::<Seq<char>>::empty());
        assert(seq![w] + tokens_of(rest) =~= seq![w]);
    } else {
        let j = w.len() as int;
        assert(tokens_of(s) == seq![s.take(j)] + tokens_of(s.skip(j)));
        assert(s.take(j) =~= w);
        assert(s.skip(j) =~= rest);
    }
}

/// Any text ending in a non-whitespace character has at least one token.
proof fn lemma_tokens_nonempty(s: Seq<char>)
    requires
        s.len() > 0,
        !is_ws(s.last()),
    ensures
        tokens_of(s).len() >= 1,
    decreases s.len(),
{
    if is_ws(s[0]) {
        assert(s.len() >= 2);
        assert(s.drop_first().last() == s.last());
        lemma_tokens_nonempty(s.drop_first());
    }
}

/// Round trip: serializing a request and parsing the result back yields the
/// method and the body that were serialized, for every nonempty,
/// whitespace-free method and every CRLF-free target and body; and the
/// target too, when it is a single nonempty whitespace-free token.  An
/// empty method, or one of two words, is left out: the whitespace split
/// would cut it, so it does not round-trip.
#[verifier::rlimit(100)]
pub proof fn lemma_request_round_trip(m: Seq<char>, t: Seq<char>, b: Seq<char>)
    requires
        m.len() > 0,
        forall|k: int| 0 <= k < m.len() ==> !is_ws(#[trigger] m[k]),
        !contains2(t, '\r', '\n'),
        !contains2(b, '\r', '\n'),
    ensures
        parse_request_spec(serialize_request_spec(m, t, b)) matches Ok(req) && req.method == m
            && req.body == b,
        (t.len() > 0 && (forall|k: int| 0 <= k < t.len() ==> !is_ws(#[trigger] t[k])))
            ==> (match parse_request_spec(serialize_request_spec(m, t, b)) {
            Ok(req) => req.target == t,
            Err(_) => false,
        }),
{
    reveal_strlit(" ");
    reveal_strlit("MVRP/1.0");
    reveal_strlit("\r\n");
    reveal_strlit("Content-Length: ");
    let sp = " "@;
    let ver = "MVRP/1.0"@;
    let crlf = "\r\n"@;
    let clh = "Content-Length: "@;
    let digits = dec_str(byte_len(b));
    let reqline = m + sp + t + sp + ver;
    let clline = clh + digits;
    let empty = Seq::<char>::empty();
    let total = serialize_request_spec(m, t, b);

    // None of the pieces of the request line or the length header holds a
    // CRLF, nor does one straddle a boundary, so neither line holds one.
    assert forall|k: int| 0 <= k < m.len() implies #[trigger] m[k] != '\r' by {
        assert(!is_ws(m[k]));
    }
    lemma_no_c0_no_pair(m, '\r', '\n');
    assert(sp.len() == 1 && sp[0] == ' ');
    lemma_no_c0_no_pair(sp, '\r', '\n');
    assert(first2_from(ver, '\r', '\n', 0) is None) by {
        reveal_with_fuel(first2_from, 10);
    }
    lemma_first2_from_spec(ver, '\r', '\n', 0);
    lemma_no_c0_no_pair(ver, '\r', '\n');
    assert(first_ws_from(ver, 0) is None) by {
        reveal_with_fuel(first_ws_from, 10);
    }
    lemma_first_ws_from_spec(ver, 0);
    assert(first2_from(clh, '\r', '\n', 0) is None) by {
        reveal_with_fuel(first2_from, 18);
    }
    lemma_first2_from_spec(clh, '\r', '\n', 0);
    lemma_no_c0_no_pair(clh, '\r', '\n');
    lemma_dec_str_digits(byte_len(b));
    assert forall|k: int| 0 <= k < digits.len() implies #[trigger] digits[k] != '\r' by {
        assert('0' <= digits[k] <= '9');
    }
    lemma_no_c0_no_pair(digits, '\r', '\n');

    crate::text::lemma_contains2_concat(m, sp, '\r', '\n');
    crate::text::lemma_contains2_concat(m + sp, t, '\r', '\n');
    crate::text::lemma_contains2_concat(m + sp + t, sp, '\r', '\n');
    crate::text::lemma_contains2_concat(m + sp + t + sp, ver, '\r', '\n');
    crate::text::lemma_contains2_concat(clh, digits, '\r', '\n');

    // The serialized text splits into exactly four lines.
    assert(total =~= reqline + crlf + (clline + crlf + (empty + crlf + b)));
    lemma_lines_prepend(reqline, clline + crlf + (empty + crlf + b));
    lemma_lines_prepend(clline, empty + crlf + b);
    lemma_lines_prepend(empty, b);
    lemma_lines_single(b);
    let lines = lines_of(total);
    assert(lines =~= seq![reqline, clline, empty, b]);
    assert(lines.last() == b);

    // The request line opens with the method token, and what follows it
    // ends in the version token, so there are at least two tokens.
    lemma_tokens_word(m, sp + t + sp + ver);
    assert(m + (sp + t + sp + ver) =~= reqline);
    let after_m = sp + t + sp + ver;
    assert(is_ws(after_m[0]));
    assert(after_m =~= (sp + t + sp) + ver);
    assert(after_m.last() == ver.last());
    assert(!is_ws(ver.last()));
    lemma_tokens_nonempty(after_m);
    let toks = tokens_of(reqline);
    assert(toks == seq![m] + tokens_of(after_m));
    assert(toks.len() >= 2);
    assert(toks[0] == m);

    // When the target is itself a single whitespace-free token, it is the
    // second one.
    if t.len() > 0 && (forall|k: int| 0 <= k < t.len() ==> !is_ws(#[trigger] t[k])) {
        assert(after_m.drop_first() =~= t + (sp + ver));
        lemma_tokens_word(t, sp + ver);
        let after_t = sp + ver;
        assert(is_ws(after_t[0]));
        assert(tokens_of(after_m) == seq![t] + tokens_of(after_t));
        assert(toks[1] == t);
    }
}

/// Serializes a request from its method, target and body.
pub fn serialize_request(method: &str, target: &str, body: &str) -> (r: String)
    ensures
        r@ == serialize_request_spec(method@, target@, body@),
{
    let mut out = method.to_owned();
    out.append(" ");
    out.append(target);
    out.append(" ");
    out.append("MVRP/1.0");
    out.append("\r\n");
    out.append("Content-Length: ");
    let digits = crate::text::dec_of_usize(body.len());
    out.append(digits.as_str());
    out.append("\r\n");
    out.append("\r\n");
    out.append(body);
    proof {
        assert(out@ =~= serialize_request_spec(method@, target@, body@));
    }
    out
}

} // verus!
