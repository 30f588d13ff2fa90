//! The loopback HTTP exchange, as values: a request (method, peer, path,
//! optional JSON body, optional Bearer token, timeout), the exact head the
//! client writes for it, and the reading of a raw response into a status
//! and a body. The socket itself belongs to the caller.

use std::time::Duration;
use vstd::prelude::*;

use crate::text::{
    chars_of, decimal, find_from, first_occurrence, lemma_first_occurrence, lemma_no_occurrence,
    occurs_at, parse_unsigned, parse_unsigned_bounded, push_decimal, string_of_chars,
};
use vstd::utf8::encode_utf8;

verus! {

/// A response as the client reads it: the status code and the body text.
pub struct HttpText {
    pub status: u16,
    pub body: String,
}

/// One request to the registry peer.
pub struct Request {
    pub method: String,
    pub host: String,
    pub port: u16,
    pub path: String,
    pub body: Option<String>,
    pub bearer: Option<String>,
    pub timeout: Duration,
}

/// The head of a request: request line, `Host`, `Connection: close`, the
/// Bearer header when a token is given, the JSON content type when a body
/// is given, and the body's length in bytes, then the blank line.
pub open spec fn request_head(
    method: Seq<char>,
    host: Seq<char>,
    port: u16,
    path: Seq<char>,
    body: Option<Seq<char>>,
    bearer: Option<Seq<char>>,
) -> Seq<char> {
    method + " "@ + path + " HTTP/1.1\r\nHost: "@ + host + ":"@ + decimal(port as nat)
        + "\r\nConnection: close\r\n"@ + match bearer {
        Some(t) => "authorization: Bearer "@ + t + "\r\n"@,
        None => Seq::empty(),
    } + match body {
        Some(_) => "content-type: application/json\r\n"@,
        None => Seq::empty(),
    } + "content-length: "@ + decimal(body_length(body)) + "\r\n\r\n"@
}

/// The length in bytes of an optional body (`str::len`).
pub open spec fn body_length(body: Option<Seq<char>>) -> nat {
    match body {
        Some(b) => (encode_utf8(b).len() as usize) as nat,
        None => 0,
    }
}

pub open spec fn view_opt(s: Option<String>) -> Option<Seq<char>> {
    match s {
        Some(t) => Some(t@),
        None => None,
    }
}

impl Request {
    /// The request head this request is sent with.
    pub fn head(&self) -> (r: String)
        ensures
            r@ == request_head(
                self.method@,
                self.host@,
                self.port,
                self.path@,
                view_opt(self.body),
                view_opt(self.bearer),
            ),
    {
        let mut head = self.method.clone();
        head.append(" ");
        head.append(self.path.as_str());
        head.append(" HTTP/1.1\r\nHost: ");
        head.append(self.host.as_str());
        head.append(":");
        push_decimal(&mut head, self.port as u64);
        head.append("\r\nConnection: close\r\n");
        match &self.bearer {
            Some(token) => {
                head.append("authorization: Bearer ");
                head.append(token.as_str());
                head.append("\r\n");
            },
            None => {},
        }
        if self.body.is_some() {
            head.append("content-type: application/json\r\n");
        }
        head.append("content-length: ");
        let length: usize = match &self.body {
            Some(b) => b.as_str().len(),
            None => 0,
        };
        push_decimal(&mut head, length as u64);
        head.append("\r\n\r\n");
        head
    }
}

/// A request to the registry peer: method, address, path, the optional
/// JSON body and Bearer token, and the timeout for connecting, writing and
/// reading.
pub fn request(
    method: &str,
    host: &str,
    port: u16,
    path: &str,
    body: Option<&str>,
    bearer: Option<&str>,
    timeout: Duration,
) -> (r: Request)
    ensures
        r.method@ == method@,
        r.host@ == host@,
        r.port == port,
        r.path@ == path@,
        view_opt(r.body) == (match body {
            Some(b) => Some(b@),
            None => None::<Seq<char>>,
        }),
        view_opt(r.bearer) == (match bearer {
            Some(t) => Some(t@),
            None => None::<Seq<char>>,
        }),
        r.timeout == timeout,
{
    Request {
        method: method.to_owned(),
        host: host.to_owned(),
        port,
        path: path.to_owned(),
        body: match body {
            Some(b) => Some(b.to_owned()),
            None => None,
        },
        bearer: match bearer {
            Some(t) => Some(t.to_owned()),
            None => None,
        },
        timeout,
    }
}

/// A `GET` without credentials.
pub fn get(host: &str, port: u16, path: &str, timeout: Duration) -> (r: Request)
    ensures
        r.method@ == "GET"@,
        r.host@ == host@,
        r.port == port,
        r.path@ == path@,
        r.body is None,
        r.bearer is None,
        r.timeout == timeout,
{
    request("GET", host, port, path, None, None, timeout)
}

/// A `GET` carrying the Bearer token.
pub fn get_auth(host: &str, port: u16, path: &str, bearer: &str, timeout: Duration) -> (r: Request)
    ensures
        r.method@ == "GET"@,
        r.host@ == host@,
        r.port == port,
        r.path@ == path@,
        r.body is None,
        view_opt(r.bearer) == Some(bearer@),
        r.timeout == timeout,
{
    request("GET", host, port, path, None, Some(bearer), timeout)
}

/// A `POST` of a JSON body carrying the Bearer token.
pub fn post_auth(
    host: &str,
    port: u16,
    path: &str,
    body: &str,
    bearer: &str,
    timeout: Duration,
) -> (r: Request)
    ensures
        r.method@ == "POST"@,
        r.host@ == host@,
        r.port == port,
        r.path@ == path@,
        view_opt(r.body) == Some(body@),
        view_opt(r.bearer) == Some(bearer@),
        r.timeout == timeout,
{
    request("POST", host, port, path, Some(body), Some(bearer), timeout)
}

// ---------------------------------------------------------------------------
// Reading a response
// ---------------------------------------------------------------------------

/// `char::is_whitespace`: the Unicode `White_Space` property.
pub open spec fn is_whitespace(c: char) -> bool {
    let u = c as u32;
    (9 <= u && u <= 13) || u == 32 || u == 0x85 || u == 0xA0 || u == 0x1680 || (0x2000 <= u
        && u <= 0x200A) || u == 0x2028 || u == 0x2029 || u == 0x202F || u == 0x205F || u
        == 0x3000
}

pub(crate) fn whitespace(c: char) -> (r: bool)
    ensures
        r == is_whitespace(c),
{
    let u = c as u32;
    (9 <= u && u <= 13) || u == 32 || u == 0x85 || u == 0xA0 || u == 0x1680 || (0x2000 <= u
        && u <= 0x200A) || u == 0x2028 || u == 0x2029 || u == 0x202F || u == 0x205F || u
        == 0x3000
}

/// The number of leading whitespace characters.
pub open spec fn leading_ws(s: Seq<char>) -> nat
    decreases s.len(),
{
    if s.len() > 0 && is_whitespace(s[0]) {
        1 + leading_ws(s.drop_first())
    } else {
        0
    }
}

/// The number of leading non-whitespace characters.
pub open spec fn leading_word(s: Seq<char>) -> nat
    decreases s.len(),
{
    if s.len() > 0 && !is_whitespace(s[0]) {
        1 + leading_word(s.drop_first())
    } else {
        0
    }
}

/// The `n`-th whitespace-separated word (`split_whitespace().nth(n)`).
pub open spec fn nth_word(s: Seq<char>, n: nat) -> Option<Seq<char>>
    decreases s.len(), n,
{
    let t = s.skip(leading_ws(s) as int);
    if t.len() == 0 {
        None
    } else if n == 0 {
        Some(t.take(leading_word(t) as int))
    } else {
        if leading_ws(s) + leading_word(t) <= s.len() && leading_word(t) > 0 {
            nth_word(t.skip(leading_word(t) as int), (n - 1) as nat)
        } else {
            None
        }
    }
}

/// The text that `split(pat).nth(1)` yields: what follows the first
/// occurrence of `pat`, up to the next occurrence (or the end).
#[verifier::opaque]
pub open spec fn second_piece(s: Seq<char>, pat: Seq<char>) -> Option<Seq<char>> {
    match first_occurrence(s, pat) {
        None => None,
        Some(i) => {
            let rest = s.skip(i + pat.len());
            match first_occurrence(rest, pat) {
                None => Some(rest),
                Some(j) => Some(rest.take(j)),
            }
        },
    }
}

/// A raw response read: the status is the second word of the text, parsed
/// as a `u16`; the body is what follows the first blank line (`\r\n\r\n`) up
/// to the next one, or empty when there is none.
pub open spec fn response_of(text: Seq<char>) -> Option<(u16, Seq<char>)> {
    match nth_word(text, 1) {
        None => None,
        Some(w) => match parse_unsigned(w, 65535) {
            None => None,
            Some(status) => Some(
                (
                    status as u16,
                    match second_piece(text, "\r\n\r\n"@) {
                        Some(b) => b,
                        None => Seq::empty(),
                    },
                ),
            ),
        },
    }
}

proof fn lemma_second_piece_none(s: Seq<char>, pat: Seq<char>)
    requires
        first_occurrence(s, pat) is None,
    ensures
        second_piece(s, pat) is None,
{
    reveal(second_piece);
}

proof fn lemma_second_piece_some(s: Seq<char>, pat: Seq<char>, i: int, j: Option<int>)
    requires
        first_occurrence(s, pat) == Some(i),
        first_occurrence(s.skip(i + pat.len()), pat) == j,
    ensures
        second_piece(s, pat) == Some(
            match j {
                None => s.skip(i + pat.len()),
                Some(j) => s.skip(i + pat.len()).take(j),
            },
        ),
{
    reveal(second_piece);
}

/// Splits off the words of a text the way `split_whitespace` does, and
/// returns the second one.
fn second_word(cs: &Vec<char>) -> (r: Option<Vec<char>>)
    ensures
        match r {
            Some(w) => nth_word(cs@, 1) == Some(w@),
            None => nth_word(cs@, 1) is None,
        },
{
    let n = cs.len();
    let ghost s = cs@;
    // skip leading whitespace
    let mut i: usize = 0;
    assert(s.skip(0) =~= s);
    while i < n && whitespace(cs[i])
        invariant
            n == s.len(),
            s == cs@,
            i <= n,
            leading_ws(s) == i + leading_ws(s.skip(i as int)),
        decreases n - i,
    {
        assert(s.skip(i as int).drop_first() =~= s.skip(i + 1));
        i = i + 1;
    }
    assert(leading_ws(s.skip(i as int)) == 0);
    let ghost t = s.skip(i as int);
    if i == n {
        return None;
    }
    // the first word
    let mut j: usize = i;
    while j < n && !whitespace(cs[j])
        invariant
            n == s.len(),
            s == cs@,
            i <= j <= n,
            t == s.skip(i as int),
            leading_word(t) == (j - i) + leading_word(s.skip(j as int)),
        decreases n - j,
    {
        assert(s.skip(j as int).drop_first() =~= s.skip(j + 1));
        j = j + 1;
    }
    assert(leading_word(s.skip(j as int)) == 0);
    assert(leading_word(t) == j - i);
    let ghost u = t.skip(leading_word(t) as int);
    assert(u =~= s.skip(j as int));
    // skip whitespace again
    let mut k: usize = j;
    while k < n && whitespace(cs[k])
        invariant
            n == s.len(),
            s == cs@,
            j <= k <= n,
            u == s.skip(j as int),
            leading_ws(u) == (k - j) + leading_ws(s.skip(k as int)),
        decreases n - k,
    {
        assert(s.skip(k as int).drop_first() =~= s.skip(k + 1));
        k = k + 1;
    }
    assert(leading_ws(s.skip(k as int)) == 0);
    let ghost v = u.skip(leading_ws(u) as int);
    assert(v =~= s.skip(k as int));
    if k == n {
        return None;
    }
    // the second word
    let mut e: usize = k;
    while e < n && !whitespace(cs[e])
        invariant
            n == s.len(),
            s == cs@,
            k <= e <= n,
            v == s.skip(k as int),
            leading_word(v) == (e - k) + leading_word(s.skip(e as int)),
        decreases n - e,
    {
        assert(s.skip(e as int).drop_first() =~= s.skip(e + 1));
        e = e + 1;
    }
    assert(leading_word(s.skip(e as int)) == 0);
    let mut w: Vec<char> = Vec::new();
    let mut x: usize = k;
    while x < e
        invariant
            n == s.len(),
            s == cs@,
            k <= x <= e <= n,
            w@ == s.subrange(k as int, x as int),
        decreases e - x,
    {
        w.push(cs[x]);
        x = x + 1;
        assert(w@ =~= s.subrange(k as int, x as int));
    }
    proof {
        assert(v.take(leading_word(v) as int) =~= w@);
        assert(nth_word(u, 0) == Some(w@));
        assert(leading_word(t) > 0);
        assert(nth_word(s, 1) == nth_word(u, 0));
    }
    Some(w)
}

/// What follows the first blank line, up to the next one.
fn body_of(cs: &Vec<char>) -> (body: Vec<char>)
    ensures
        body@ == match second_piece(cs@, "\r\n\r\n"@) {
            Some(b) => b,
            None => Seq::empty(),
        },
{
    let mut sep: Vec<char> = Vec::new();
    sep.push('\r');
    sep.push('\n');
    sep.push('\r');
    sep.push('\n');
    proof {
        reveal_strlit("\r\n\r\n");
        assert(sep@ =~= "\r\n\r\n"@);
    }
    let mut body: Vec<char> = Vec::new();
    match find_from(&cs, &sep, 0) {
        None => {
            proof {
                lemma_no_occurrence(cs@, sep@);
                lemma_second_piece_none(cs@, sep@);
            }
        },
        Some(i) => {
            proof {
                lemma_first_occurrence(cs@, sep@, i as int);
            }
            assert(sep@.len() == 4);
            assert(occurs_at(cs@, sep@, i as int));
            let n = cs.len();
            assert(i + 4 <= n);
            let start = i + 4;
            let ghost rest = cs@.skip(start as int);
            let end = match find_from(&cs, &sep, start) {
                Some(j) => {
                    proof {
                        assert forall|t: int| 0 <= t < j - start implies !occurs_at(rest, sep@, t) by {
                            if occurs_at(rest, sep@, t) {
                                assert(cs@.subrange(start + t, start + t + 4) =~= rest.subrange(t, t + 4));
                                assert(occurs_at(cs@, sep@, start + t));
                            }
                        }
                        assert(rest.subrange(j - start, j - start + 4) =~= cs@.subrange(j as int, j + 4));
                        lemma_first_occurrence(rest, sep@, j - start);
                    }
                    j
                },
                None => {
                    proof {
                        assert forall|t: int| 0 <= t implies !occurs_at(rest, sep@, t) by {
                            if occurs_at(rest, sep@, t) {
                                assert(cs@.subrange(start + t, start + t + 4) =~= rest.subrange(t, t + 4));
                                assert(occurs_at(cs@, sep@, start + t));
                            }
                        }
                        lemma_no_occurrence(rest, sep@);
                    }
                    cs.len()
                },
            };
            let mut x: usize = start;
            while x < end
                invariant
                    start <= x <= end <= cs@.len(),
                    body@ == cs@.subrange(start as int, x as int),
                decreases end - x,
            {
                body.push(cs[x]);
                x = x + 1;
                assert(body@ =~= cs@.subrange(start as int, x as int));
            }
            proof {
                if end < cs@.len() {
                    lemma_second_piece_some(cs@, sep@, i as int, Some(end - start));
                    assert(rest.take(end - start) =~= body@);
                } else {
                    lemma_second_piece_some(cs@, sep@, i as int, None);
                    assert(rest =~= body@);
                }
            }
        },
    }
    body
}

/// Reads a raw response (decoded as text): `None` when its second word is
/// not a status code.
pub fn parse_response(text: &str) -> (r: Option<HttpText>)
    ensures
        match r {
            Some(h) => response_of(text@) == Some((h.status, h.body@)),
            None => response_of(text@) is None,
        },
{
    let cs = chars_of(text);
    let word = match second_word(&cs) {
        Some(w) => w,
        None => return None,
    };
    let word_text = string_of_chars(&word);
    let status = match parse_unsigned_bounded(word_text.as_str(), 65535) {
        Some(s) => s as u16,
        None => return None,
    };
    let body = body_of(&cs);
    Some(HttpText { status, body: string_of_chars(&body) })
}

} // verus!
