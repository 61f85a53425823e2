//! The token parser: splits a bearer token into its three dot-separated
//! base64url segments and decodes the header and payload documents, trusting
//! nothing about their content.
//!
//! A token is well-formed exactly when it has three non-empty segments, each
//! segment decodes as base64url, and the header and payload decode to JSON
//! objects.  Any failure yields `MalformedToken` with no partial result.

use vstd::prelude::*;
use vstd::string::StringExecFns;
use vstd::string::StrSliceExecFns;

use crate::base64url::{
    b64url_decoding, b64_encoded, base64url_decode, lemma_base64url_round_trip,
    lemma_encoded_chars, lemma_encoded_len, is_b64url_char,
};
use crate::errors::AuthError;
use crate::jsonval::{json_is_object, json_object_ok};

verus! {

/// The least index at which `c` occurs, if any.
pub open spec fn find_char(s: Seq<char>, c: char) -> Option<int>
    decreases s.len(),
{
    if s.len() == 0 {
        None
    } else if s[0] == c {
        Some(0)
    } else {
        match find_char(s.skip(1), c) {
            None => None,
            Some(i) => Some(i + 1),
        }
    }
}

/// `find_char` returns the first occurrence: the index holds `c` and no
/// earlier index does; `None` means `c` does not occur at all.
pub proof fn lemma_find_char(s: Seq<char>, c: char)
    ensures
        match find_char(s, c) {
            Some(i) => 0 <= i < s.len() && s[i] == c && (forall|k: int|
                0 <= k < i ==> s[k] != c),
            None => forall|k: int| 0 <= k < s.len() ==> s[k] != c,
        },
    decreases s.len(),
{
    if s.len() > 0 && s[0] != c {
        lemma_find_char(s.skip(1), c);
        match find_char(s.skip(1), c) {
            Some(i) => {
                assert(s[i + 1] == s.skip(1)[i]);
                assert forall|k: int| 0 <= k < i + 1 implies s[k] != c by {
                    if k > 0 {
                        assert(s[k] == s.skip(1)[k - 1]);
                    }
                }
            },
            None => {
                assert forall|k: int| 0 <= k < s.len() implies s[k] != c by {
                    if k > 0 {
                        assert(s[k] == s.skip(1)[k - 1]);
                    }
                }
            },
        }
    }
}

/// The three segments of a token: exactly two dots, all segments non-empty.
pub open spec fn split3(s: Seq<char>) -> Option<(Seq<char>, Seq<char>, Seq<char>)> {
    match find_char(s, '.') {
        None => None,
        Some(i) => {
            let rest = s.skip(i + 1);
            match find_char(rest, '.') {
                None => None,
                Some(j) => {
                    let a = s.take(i);
                    let b = rest.take(j);
                    let c = rest.skip(j + 1);
                    if find_char(c, '.') is None && a.len() > 0 && b.len() > 0 && c.len() > 0 {
                        Some((a, b, c))
                    } else {
                        None
                    }
                },
            }
        },
    }
}

/// What parsing a raw token yields: the decoded header document, payload
/// document and signature bytes, or nothing if the token is malformed at
/// any stage.
pub open spec fn parse_spec(s: Seq<char>) -> Option<(Seq<u8>, Seq<u8>, Seq<u8>)> {
    match split3(s) {
        None => None,
        Some((a, b, c)) => match (b64url_decoding(a), b64url_decoding(b), b64url_decoding(c)) {
            (Some(h), Some(p), Some(g)) => if json_object_ok(h) && json_object_ok(p) {
                Some((h, p, g))
            } else {
                None
            },
            _ => None,
        },
    }
}

/// A parsed token: decoded documents, raw signature bytes, and the exact
/// character span the signature signs (`header_segment.payload_segment`).
#[derive(Debug)]
pub struct TokenParts {
    pub header: Vec<u8>,
    pub payload: Vec<u8>,
    pub signature: Vec<u8>,
    pub signing_input: String,
}

/// First occurrence of `.` at or after `from`.
fn find_dot(s: &str, from: usize) -> (r: Option<usize>)
    requires
        from <= s@.len(),
    ensures
        match r {
            Some(i) => from <= i < s@.len() && s@[i as int] == '.' && (forall|k: int|
                from <= k < i ==> s@[k] != '.'),
            None => forall|k: int| from <= k < s@.len() ==> s@[k] != '.',
        },
{
    let n = s.unicode_len();
    let mut i = from;
    while i < n
        invariant
            from <= i <= n,
            n == s@.len(),
            forall|k: int| from <= k < i ==> s@[k] != '.',
        decreases n - i,
    {
        if s.get_char(i) == '.' {
            return Some(i);
        }
        i = i + 1;
    }
    None
}

/// Splits on dots and decodes; yields `MalformedToken` (and nothing else)
/// whenever the input is not a three-segment token of base64url-encoded
/// JSON header, JSON payload and signature bytes.
pub fn parse_token(raw: &str) -> (r: Result<TokenParts, AuthError>)
    ensures
        match r {
            Ok(t) => parse_spec(raw@) == Some((t.header@, t.payload@, t.signature@)) && (
            split3(raw@) matches Some((a, b, _c)) && t.signing_input@ == a + seq!['.'] + b),
            Err(e) => e == AuthError::MalformedToken && parse_spec(raw@) is None,
        },
{
    let n = raw.unicode_len();
    proof {
        lemma_find_char(raw@, '.');
    }
    let i = match find_dot(raw, 0) {
        Some(i) => i,
        None => {
            return Err(AuthError::MalformedToken);
        },
    };
    proof {
        assert(find_char(raw@, '.') == Some(i as int));
        lemma_find_char(raw@.skip(i + 1), '.');
        assert forall|k: int| 0 <= k < raw@.len() - i - 1 implies #[trigger] raw@.skip(i + 1)[k]
            == raw@[k + i + 1] by {}
    }
    let j = match find_dot(raw, i + 1) {
        Some(j) => j,
        None => {
            return Err(AuthError::MalformedToken);
        },
    };
    let ghost rest = raw@.skip(i + 1);
    proof {
        assert(rest[j - i - 1] == '.');
        assert(find_char(rest, '.') == Some(j - i - 1));
        lemma_find_char(rest.skip(j - i), '.');
        assert(rest.skip(j - i) =~= raw@.skip(j + 1));
    }
    match find_dot(raw, j + 1) {
        Some(k) => {
            proof {
                assert(raw@.skip(j + 1)[k - j - 1] == '.');
            }
            return Err(AuthError::MalformedToken);
        },
        None => {},
    }
    proof {
        assert(find_char(raw@.skip(j + 1), '.') is None);
    }
    if i == 0 || j == i + 1 || j + 1 == n {
        return Err(AuthError::MalformedToken);
    }
    let a = raw.substring_char(0, i);
    let b = raw.substring_char(i + 1, j);
    let c = raw.substring_char(j + 1, n);
    proof {
        assert(a@ =~= raw@.take(i as int));
        assert(b@ =~= rest.take(j - i - 1));
        assert(c@ =~= rest.skip(j - i));
        assert(split3(raw@) == Some((a@, b@, c@)));
    }
    let header = match base64url_decode(a) {
        Some(h) => h,
        None => {
            return Err(AuthError::MalformedToken);
        },
    };
    let payload = match base64url_decode(b) {
        Some(p) => p,
        None => {
            return Err(AuthError::MalformedToken);
        },
    };
    let signature = match base64url_decode(c) {
        Some(g) => g,
        None => {
            return Err(AuthError::MalformedToken);
        },
    };
    if !json_is_object(header.as_slice()) {
        return Err(AuthError::MalformedToken);
    }
    if !json_is_object(payload.as_slice()) {
        return Err(AuthError::MalformedToken);
    }
    let signing_input = String::from_str(raw.substring_char(0, j));
    proof {
        assert(signing_input@ =~= a@ + seq!['.'] + b@);
    }
    Ok(TokenParts { header, payload, signature, signing_input })
}

/// Round trip through the token parser: encoding a JSON header, a JSON
/// payload and a signature and joining them with dots parses back to
/// exactly those bytes.
pub proof fn lemma_token_round_trip(h: Seq<u8>, p: Seq<u8>, g: Seq<u8>)
    requires
        h.len() > 0,
        p.len() > 0,
        g.len() > 0,
        json_object_ok(h),
        json_object_ok(p),
    ensures
        parse_spec(b64_encoded(h) + seq!['.'] + b64_encoded(p) + seq!['.'] + b64_encoded(g))
            == Some((h, p, g)),
{
    let ea = b64_encoded(h);
    let eb = b64_encoded(p);
    let ec = b64_encoded(g);
    let s = ea + seq!['.'] + eb + seq!['.'] + ec;
    lemma_encoded_chars(h);
    lemma_encoded_chars(p);
    lemma_encoded_chars(g);
    lemma_encoded_len(h);
    lemma_encoded_len(p);
    lemma_encoded_len(g);
    assert(!is_b64url_char('.'));
    lemma_find_char(s, '.');
    let i = ea.len() as int;
    assert(s[i] == '.');
    assert(forall|k: int| 0 <= k < i ==> s[k] == ea[k] && is_b64url_char(#[trigger] ea[k]));
    assert(find_char(s, '.') == Some(i));
    let rest = s.skip(i + 1);
    assert(rest =~= eb + seq!['.'] + ec);
    lemma_find_char(rest, '.');
    let j = eb.len() as int;
    assert(rest[j] == '.');
    assert(forall|k: int| 0 <= k < j ==> rest[k] == eb[k] && is_b64url_char(#[trigger] eb[k]));
    assert(find_char(rest, '.') == Some(j));
    let tail = rest.skip(j + 1);
    assert(tail =~= ec);
    lemma_find_char(tail, '.');
    assert(forall|k: int| 0 <= k < ec.len() ==> is_b64url_char(#[trigger] ec[k]));
    assert(find_char(tail, '.') is None);
    assert(s.take(i) =~= ea);
    assert(rest.take(j) =~= eb);
    assert(split3(s) == Some((ea, eb, ec)));
    lemma_base64url_round_trip(h);
    lemma_base64url_round_trip(p);
    lemma_base64url_round_trip(g);
}

} // verus!
