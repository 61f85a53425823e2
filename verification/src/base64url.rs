//! RFC 4648 base64url codec.
//!
//! Token segments arrive base64url-encoded with the `=` padding omitted, so
//! the decoder accepts unpadded input (and tolerates trailing `=` characters
//! when they are present).  Only the URL-safe alphabet (`A`-`Z`, `a`-`z`,
//! `0`-`9`, `-`, `_`) is accepted; anything else is a decode failure.
//!
//! The model works on 6-bit values: a group of four characters carries three
//! bytes, a trailing group of three carries two, a trailing group of two
//! carries one, and a trailing group of one is invalid.

use vstd::prelude::*;

verus! {

/// 6-bit value of a base64url alphabet character; 64 marks a character
/// outside the alphabet.
pub open spec fn b64_char_val(c: char) -> int {
    if 65 <= c as int <= 90 {
        c as int - 65
    } else if 97 <= c as int <= 122 {
        c as int - 97 + 26
    } else if 48 <= c as int <= 57 {
        c as int - 48 + 52
    } else if c == '-' {
        62
    } else if c == '_' {
        63
    } else {
        64
    }
}

pub open spec fn is_b64url_char(c: char) -> bool {
    b64_char_val(c) < 64
}

/// The alphabet character carrying the 6-bit value `v`.
pub open spec fn b64_char_of(v: int) -> char {
    if v < 26 {
        ((65 + v) as u8) as char
    } else if v < 52 {
        ((97 + v - 26) as u8) as char
    } else if v < 62 {
        ((48 + v - 52) as u8) as char
    } else if v == 62 {
        '-'
    } else {
        '_'
    }
}

/// Input with trailing `=` padding characters removed.
pub open spec fn strip_padding(s: Seq<char>) -> Seq<char>
    decreases s.len(),
{
    if s.len() > 0 && s.last() == '=' {
        strip_padding(s.drop_last())
    } else {
        s
    }
}

/// A stripped input decodes iff every character is in the alphabet and the
/// length leaves no dangling single character.
pub open spec fn b64_valid(s: Seq<char>) -> bool {
    &&& s.len() % 4 != 1
    &&& forall|i: int| 0 <= i < s.len() ==> is_b64url_char(#[trigger] s[i])
}

/// Bytes carried by one trailing group of two, three or four characters.
pub open spec fn decode_group(s: Seq<char>) -> Seq<u8> {
    let v0 = b64_char_val(s[0]);
    let v1 = b64_char_val(s[1]);
    if s.len() < 3 {
        seq![(v0 * 4 + v1 / 16) as u8]
    } else {
        let v2 = b64_char_val(s[2]);
        if s.len() == 3 {
            seq![(v0 * 4 + v1 / 16) as u8, ((v1 % 16) * 16 + v2 / 4) as u8]
        } else {
            let v3 = b64_char_val(s[3]);
            seq![
                (v0 * 4 + v1 / 16) as u8,
                ((v1 % 16) * 16 + v2 / 4) as u8,
                ((v2 % 4) * 64 + v3) as u8,
            ]
        }
    }
}

/// Bytes carried by a stripped, valid input.
pub open spec fn b64_decoded(s: Seq<char>) -> Seq<u8>
    decreases s.len(),
{
    if s.len() == 0 {
        seq![]
    } else if s.len() < 4 {
        decode_group(s)
    } else {
        decode_group(s.take(4)) + b64_decoded(s.skip(4))
    }
}

/// What decoding an arbitrary input yields: `None` exactly when the input,
/// after padding removal, is not well-formed base64url.
pub open spec fn b64url_decoding(s: Seq<char>) -> Option<Seq<u8>> {
    let t = strip_padding(s);
    if b64_valid(t) {
        Some(b64_decoded(t))
    } else {
        None
    }
}

/// Characters carrying one trailing group of one, two or three bytes.
pub open spec fn encode_group(b: Seq<u8>) -> Seq<char> {
    let x = b[0] as int;
    if b.len() == 1 {
        seq![b64_char_of(x / 4), b64_char_of((x % 4) * 16)]
    } else {
        let y = b[1] as int;
        if b.len() == 2 {
            seq![b64_char_of(x / 4), b64_char_of((x % 4) * 16 + y / 16), b64_char_of((y % 16) * 4)]
        } else {
            let z = b[2] as int;
            seq![
                b64_char_of(x / 4),
                b64_char_of((x % 4) * 16 + y / 16),
                b64_char_of((y % 16) * 4 + z / 64),
                b64_char_of(z % 64),
            ]
        }
    }
}

/// The unpadded base64url encoding of a byte sequence.
pub open spec fn b64_encoded(b: Seq<u8>) -> Seq<char>
    decreases b.len(),
{
    if b.len() == 0 {
        seq![]
    } else if b.len() < 3 {
        encode_group(b)
    } else {
        encode_group(b.take(3)) + b64_encoded(b.skip(3))
    }
}

/// 6-bit value of a character at run time; 64 marks a character outside the
/// alphabet.
fn char_val(c: char) -> (r: u8)
    ensures
        r as int == b64_char_val(c),
{
    let u = c as u32;
    if 65 <= u && u <= 90 {
        (u - 65) as u8
    } else if 97 <= u && u <= 122 {
        (u - 97 + 26) as u8
    } else if 48 <= u && u <= 57 {
        (u - 48 + 52) as u8
    } else if c == '-' {
        62
    } else if c == '_' {
        63
    } else {
        64
    }
}

/// Alphabet character for a 6-bit value at run time.
fn char_of(v: u8) -> (r: char)
    requires
        v < 64,
    ensures
        r == b64_char_of(v as int),
{
    if v < 26 {
        (65 + v) as char
    } else if v < 52 {
        (97 + v - 26) as char
    } else if v < 62 {
        (48 + v - 52) as char
    } else if v == 62 {
        '-'
    } else {
        '_'
    }
}

/// Relies on `String::push`: appends the given character to the string.
#[verifier::external_body]
fn push_char(s: &mut String, c: char)
    ensures
        final(s)@ == old(s)@.push(c),
{
    s.push(c);
}

/// Decodes a base64url string, accepting missing `=` padding as well as
/// trailing padding characters; rejects any character outside the URL-safe
/// alphabet and any length that leaves a dangling character.
pub fn base64url_decode(input: &str) -> (r: Option<Vec<u8>>)
    ensures
        match r {
            Some(v) => b64url_decoding(input@) == Some(v@),
            None => b64url_decoding(input@) is None,
        },
{
    let n = input.unicode_len();
    proof {
        assert(input@.take(n as int) =~= input@);
    }
    // Remove trailing padding.
    let mut end = n;
    while end > 0 && input.get_char(end - 1) == '='
        invariant
            end <= n,
            n == input@.len(),
            strip_padding(input@.take(end as int)) == strip_padding(input@),
        decreases end,
    {
        proof {
            assert(input@.take(end as int).last() == '=');
            assert(input@.take(end as int).drop_last() =~= input@.take(end - 1));
        }
        end = end - 1;
    }
    let ghost t = input@.take(end as int);
    proof {
        if end > 0 {
            assert(t.last() != '=');
        }
        assert(strip_padding(t) == t);
    }
    if end % 4 == 1 {
        return None;
    }
    let mut out: Vec<u8> = Vec::new();
    let mut i: usize = 0;
    while i < end
        invariant
            i <= end,
            end <= n,
            n == input@.len(),
            i % 4 == 0 || i == end,
            end % 4 != 1,
            t == input@.take(end as int),
            strip_padding(input@) == t,
            b64_valid(t.take(i as int)),
            out@ == b64_decoded(t.take(i as int)),
        decreases end - i,
    {
        let remaining = end - i;
        let k = if remaining < 4 {
            remaining
        } else {
            4
        };
        proof {
            assert(k >= 2);
        }
        let ghost g = t.skip(i as int).take(k as int);
        let v0 = char_val(input.get_char(i));
        let v1 = char_val(input.get_char(i + 1));
        if v0 >= 64 || v1 >= 64 {
            proof {
                if v0 >= 64 {
                    assert(!is_b64url_char(t[i as int]));
                } else {
                    assert(!is_b64url_char(t[i + 1]));
                }
                assert(!b64_valid(t));
            }
            return None;
        }
        let b0 = v0 * 4 + v1 / 16;
        if k == 2 {
            out.push(b0);
        } else {
            let v2 = char_val(input.get_char(i + 2));
            if v2 >= 64 {
                proof {
                    assert(!is_b64url_char(t[i + 2]));
                    assert(!b64_valid(t));
                }
                return None;
            }
            let b1 = (v1 % 16) * 16 + v2 / 4;
            if k == 3 {
                out.push(b0);
                out.push(b1);
            } else {
                let v3 = char_val(input.get_char(i + 3));
                if v3 >= 64 {
                    proof {
                        assert(!is_b64url_char(t[i + 3]));
                        assert(!b64_valid(t));
                    }
                    return None;
                }
                let b2 = (v2 % 4) * 64 + v3;
                out.push(b0);
                out.push(b1);
                out.push(b2);
            }
        }
        proof {
            assert(out@ =~= b64_decoded(t.take(i as int)) + decode_group(g));
            lemma_decoded_extend(t, i as int, k as int);
        }
        i = i + k;
    }
    proof {
        assert(t.take(end as int) =~= t);
    }
    Some(out)
}

/// The decoder's loop step: appending one further valid group to a valid
/// prefix keeps it valid and appends that group's bytes.
proof fn lemma_decoded_extend(t: Seq<char>, i: int, k: int)
    requires
        0 <= i,
        i % 4 == 0,
        2 <= k <= 4,
        i + k <= t.len(),
        k < 4 ==> i + k == t.len(),
        b64_valid(t.take(i)),
        forall|j: int| i <= j < i + k ==> is_b64url_char(#[trigger] t[j]),
    ensures
        b64_valid(t.take(i + k)),
        b64_decoded(t.take(i + k)) == b64_decoded(t.take(i)) + decode_group(
            t.skip(i).take(k),
        ),
    decreases i,
{
    let pre = t.take(i);
    let whole = t.take(i + k);
    let g = t.skip(i).take(k);
    assert forall|j: int| 0 <= j < whole.len() implies is_b64url_char(#[trigger] whole[j]) by {
        if j < i {
            assert(is_b64url_char(pre[j]));
        }
    }
    if i == 0 {
        assert(whole =~= g);
        if k < 4 {
            assert(b64_decoded(whole) =~= decode_group(g));
        } else {
            assert(whole.skip(4) =~= Seq::<char>::empty());
            assert(b64_decoded(whole) =~= decode_group(whole.take(4)) + b64_decoded(
                whole.skip(4),
            ));
            assert(whole.take(4) =~= g);
            assert(b64_decoded(whole.skip(4)) =~= Seq::<u8>::empty());
        }
    } else {
        let t2 = t.skip(4);
        assert(t2.take(i - 4) =~= t.take(i).skip(4));
        assert(t2.take(i - 4 + k) =~= t.take(i + k).skip(4));
        assert(t2.skip(i - 4).take(k) =~= g);
        assert(b64_valid(t2.take(i - 4))) by {
            let p2 = t2.take(i - 4);
            assert forall|j: int| 0 <= j < p2.len() implies is_b64url_char(#[trigger] p2[j]) by {
                assert(p2[j] == pre[j + 4]);
                assert(is_b64url_char(pre[j + 4]));
            }
        }
        lemma_decoded_extend(t2, i - 4, k);
        assert(whole.take(4) =~= pre.take(4));
        assert(b64_decoded(whole) == decode_group(whole.take(4)) + b64_decoded(whole.skip(4)));
        assert(b64_decoded(pre) == decode_group(pre.take(4)) + b64_decoded(pre.skip(4)));
        assert(pre.skip(4) =~= t2.take(i - 4));
        assert(b64_decoded(whole) =~= b64_decoded(pre) + decode_group(g));
    }
}

/// Encodes bytes as unpadded base64url.
pub fn base64url_encode(input: &[u8]) -> (r: String)
    ensures
        r@ == b64_encoded(input@),
{
    let n = input.len();
    let mut out = String::new();
    let mut i: usize = 0;
    while i < n
        invariant
            i <= n,
            n == input@.len(),
            i % 3 == 0 || i == n,
            out@ == b64_encoded(input@.take(i as int)),
        decreases n - i,
    {
        let remaining = n - i;
        let k = if remaining < 3 {
            remaining
        } else {
            3
        };
        let ghost g = input@.skip(i as int).take(k as int);
        let x = input[i];
        push_char(&mut out, char_of(x / 4));
        if k == 1 {
            push_char(&mut out, char_of((x % 4) * 16));
        } else {
            let y = input[i + 1];
            push_char(&mut out, char_of((x % 4) * 16 + y / 16));
            if k == 2 {
                push_char(&mut out, char_of((y % 16) * 4));
            } else {
                let z = input[i + 2];
                push_char(&mut out, char_of((y % 16) * 4 + z / 64));
                push_char(&mut out, char_of(z % 64));
            }
        }
        proof {
            assert(out@ =~= b64_encoded(input@.take(i as int)) + encode_group(g));
            lemma_encoded_extend(input@, i as int, k as int);
        }
        i = i + k;
    }
    proof {
        assert(input@.take(n as int) =~= input@);
    }
    out
}

/// The encoder's loop step, mirroring [`lemma_decoded_extend`].
proof fn lemma_encoded_extend(b: Seq<u8>, i: int, k: int)
    requires
        0 <= i,
        i % 3 == 0,
        1 <= k <= 3,
        i + k <= b.len(),
        k < 3 ==> i + k == b.len(),
    ensures
        b64_encoded(b.take(i + k)) == b64_encoded(b.take(i)) + encode_group(b.skip(i).take(k)),
    decreases i,
{
    let pre = b.take(i);
    let whole = b.take(i + k);
    let g = b.skip(i).take(k);
    if i == 0 {
        assert(whole =~= g);
        if k < 3 {
            assert(b64_encoded(whole) =~= encode_group(g));
        } else {
            assert(whole.take(3) =~= g);
            assert(whole.skip(3) =~= Seq::<u8>::empty());
            assert(b64_encoded(whole.skip(3)) =~= Seq::<char>::empty());
        }
        assert(b64_encoded(pre) =~= Seq::<char>::empty());
        assert(b64_encoded(whole) =~= b64_encoded(pre) + encode_group(g));
    } else {
        let b2 = b.skip(3);
        assert(b2.take(i - 3) =~= b.take(i).skip(3));
        assert(b2.take(i - 3 + k) =~= b.take(i + k).skip(3));
        assert(b2.skip(i - 3).take(k) =~= g);
        lemma_encoded_extend(b2, i - 3, k);
        assert(whole.take(3) =~= pre.take(3));
        assert(b64_encoded(whole) == encode_group(whole.take(3)) + b64_encoded(whole.skip(3)));
        assert(b64_encoded(pre) == encode_group(pre.take(3)) + b64_encoded(pre.skip(3)));
        assert(pre.skip(3) =~= b2.take(i - 3));
        assert(b64_encoded(whole) =~= b64_encoded(pre) + encode_group(g));
    }
}

/// An encoded character always lies in the alphabet and carries its value
/// back: the alphabet map and its inverse cancel.
proof fn lemma_char_of_val(v: int)
    requires
        0 <= v < 64,
    ensures
        is_b64url_char(b64_char_of(v)),
        b64_char_val(b64_char_of(v)) == v,
{
}

/// Every character of an encoding is in the alphabet (so in particular it is
/// never `=` and never a segment separator).
pub proof fn lemma_encoded_chars(b: Seq<u8>)
    ensures
        forall|i: int| 0 <= i < b64_encoded(b).len() ==> is_b64url_char(#[trigger] b64_encoded(b)[i]),
    decreases b.len(),
{
    if b.len() == 0 {
    } else if b.len() < 3 {
        let e = b64_encoded(b);
        assert forall|i: int| 0 <= i < e.len() implies is_b64url_char(#[trigger] e[i]) by {
            let x = b[0] as int;
            lemma_char_of_val(x / 4);
            if b.len() == 1 {
                lemma_char_of_val((x % 4) * 16);
            } else {
                let y = b[1] as int;
                lemma_char_of_val((x % 4) * 16 + y / 16);
                lemma_char_of_val((y % 16) * 4);
            }
        }
    } else {
        lemma_encoded_chars(b.skip(3));
        let e = b64_encoded(b);
        let g = encode_group(b.take(3));
        assert forall|i: int| 0 <= i < e.len() implies is_b64url_char(#[trigger] e[i]) by {
            let x = b[0] as int;
            let y = b[1] as int;
            let z = b[2] as int;
            lemma_char_of_val(x / 4);
            lemma_char_of_val((x % 4) * 16 + y / 16);
            lemma_char_of_val((y % 16) * 4 + z / 64);
            lemma_char_of_val(z % 64);
            if i >= 4 {
                assert(e[i] == b64_encoded(b.skip(3))[i - 4]);
            } else {
                assert(b.take(3)[0] == b[0] && b.take(3)[1] == b[1] && b.take(3)[2] == b[2]);
            }
        }
    }
}

/// The length of an encoding: four characters for every three bytes, plus
/// two or three for a trailing partial group.
pub proof fn lemma_encoded_len(b: Seq<u8>)
    ensures
        b.len() % 3 == 0 ==> b64_encoded(b).len() == (b.len() / 3) * 4,
        b.len() % 3 == 1 ==> b64_encoded(b).len() == (b.len() / 3) * 4 + 2,
        b.len() % 3 == 2 ==> b64_encoded(b).len() == (b.len() / 3) * 4 + 3,
        b64_encoded(b).len() % 4 != 1,
    decreases b.len(),
{
    if b.len() >= 3 {
        lemma_encoded_len(b.skip(3));
    }
}

/// Decoding a trailing group recovers the bytes it was encoded from.
proof fn lemma_group_round_trip(g: Seq<u8>)
    requires
        1 <= g.len() <= 3,
    ensures
        decode_group(encode_group(g)) == g,
{
    let x = g[0] as int;
    lemma_char_of_val(x / 4);
    if g.len() == 1 {
        lemma_char_of_val((x % 4) * 16);
        assert(decode_group(encode_group(g)) =~= g) by {
            assert((x / 4) * 4 + ((x % 4) * 16) / 16 == x);
        }
    } else {
        let y = g[1] as int;
        lemma_char_of_val((x % 4) * 16 + y / 16);
        if g.len() == 2 {
            lemma_char_of_val((y % 16) * 4);
            assert(decode_group(encode_group(g)) =~= g) by {
                assert((x / 4) * 4 + ((x % 4) * 16 + y / 16) / 16 == x);
                assert((((x % 4) * 16 + y / 16) % 16) * 16 + ((y % 16) * 4) / 4 == y);
            }
        } else {
            let z = g[2] as int;
            lemma_char_of_val((y % 16) * 4 + z / 64);
            lemma_char_of_val(z % 64);
            assert(decode_group(encode_group(g)) =~= g) by {
                assert((x / 4) * 4 + ((x % 4) * 16 + y / 16) / 16 == x);
                assert((((x % 4) * 16 + y / 16) % 16) * 16 + ((y % 16) * 4 + z / 64) / 4 == y);
                assert((((y % 16) * 4 + z / 64) % 4) * 64 + z % 64 == z);
            }
        }
    }
}

/// Round trip: decoding an unpadded base64url encoding yields exactly the
/// encoded bytes.  Stated over arbitrary byte sequences; together with the
/// token parser's contract it carries an encoded document through parsing
/// unchanged.
pub proof fn lemma_base64url_round_trip(b: Seq<u8>)
    ensures
        b64url_decoding(b64_encoded(b)) == Some(b),
    decreases b.len(),
{
    let e = b64_encoded(b);
    lemma_encoded_chars(b);
    lemma_encoded_len(b);
    if e.len() > 0 {
        assert(is_b64url_char(e.last()));
        assert(e.last() != '=');
    }
    assert(strip_padding(e) == e);
    assert(b64_valid(e));
    if b.len() == 0 {
        assert(b64_decoded(e) =~= b);
    } else if b.len() < 3 {
        lemma_group_round_trip(b);
        assert(e == encode_group(b));
        assert(2 <= e.len() <= 3);
        assert(b64_decoded(e) == decode_group(e));
    } else {
        lemma_base64url_round_trip(b.skip(3));
        let g = encode_group(b.take(3));
        assert(g.len() == 4);
        lemma_group_round_trip(b.take(3));
        assert(e == g + b64_encoded(b.skip(3)));
        assert(e.take(4) =~= g);
        assert(e.skip(4) =~= b64_encoded(b.skip(3)));
        assert(b64_decoded(e) == decode_group(e.take(4)) + b64_decoded(e.skip(4)));
        let e2 = b64_encoded(b.skip(3));
        lemma_encoded_chars(b.skip(3));
        lemma_encoded_len(b.skip(3));
        if e2.len() > 0 {
            assert(is_b64url_char(e2.last()));
            assert(e2.last() != '=');
        }
        assert(strip_padding(e2) == e2);
        assert(b64_decoded(e2) == b.skip(3));
        assert(b64_decoded(e) =~= b.take(3) + b.skip(3));
        assert(b.take(3) + b.skip(3) =~= b);
    }
}

} // verus!
