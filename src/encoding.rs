//! Standard base64 (the RFC 4648 alphabet with `+` and `/`, padded with `=`),
//! stated as spec functions, and the encoder that this crate calls.
use base64::engine::general_purpose;
use base64::Engine;
use vstd::prelude::*;

verus! {

/// The padding character.
pub open spec fn pad() -> char {
    '='
}

/// The character of the standard alphabet that stands for a six-bit value:
/// `A`-`Z`, `a`-`z`, `0`-`9`, `+`, `/`.
pub open spec fn sextet_char(v: int) -> char {
    if v < 26 {
        ((65 + v) as u32) as char
    } else if v < 52 {
        ((71 + v) as u32) as char
    } else if v < 62 {
        ((v - 4) as u32) as char
    } else if v == 62 {
        '+'
    } else {
        '/'
    }
}

/// The six-bit value of a character of the standard alphabet.
pub open spec fn sextet_value(c: char) -> int {
    let u = c as u32 as int;
    if 65 <= u <= 90 {
        u - 65
    } else if 97 <= u <= 122 {
        u - 71
    } else if 48 <= u <= 57 {
        u + 4
    } else if c == '+' {
        62
    } else {
        63
    }
}

/// Whether a character may stand in standard base64 text: a letter, a
/// digit, `+`, `/` or the padding.
pub open spec fn is_base64_char(c: char) -> bool {
    ||| 'A' <= c <= 'Z'
    ||| 'a' <= c <= 'z'
    ||| '0' <= c <= '9'
    ||| c == '+'
    ||| c == '/'
    ||| c == pad()
}

/// Four characters for three bytes.
pub open spec fn encoded_triple(b0: int, b1: int, b2: int) -> Seq<char> {
    seq![
        sextet_char(b0 / 4),
        sextet_char((b0 % 4) * 16 + b1 / 16),
        sextet_char((b1 % 16) * 4 + b2 / 64),
        sextet_char(b2 % 64),
    ]
}

/// Standard base64 of a byte sequence: each group of three bytes becomes four
/// characters; a last group of one or two bytes is filled with zero bits and
/// padded with `=` to four characters.
pub open spec fn encoded(b: Seq<u8>) -> Seq<char>
    decreases b.len(),
{
    if b.len() == 0 {
        seq![]
    } else {
        let b0 = b[0] as int;
        if b.len() == 1 {
            seq![sextet_char(b0 / 4), sextet_char((b0 % 4) * 16), pad(), pad()]
        } else {
            let b1 = b[1] as int;
            if b.len() == 2 {
                seq![
                    sextet_char(b0 / 4),
                    sextet_char((b0 % 4) * 16 + b1 / 16),
                    sextet_char((b1 % 16) * 4),
                    pad(),
                ]
            } else {
                encoded_triple(b0, b1, b[2] as int) + encoded(b.subrange(3, b.len() as int))
            }
        }
    }
}

/// Decoding of standard base64 text: each group of four characters gives
/// three bytes, fewer where the group ends in padding.
pub open spec fn decoded(s: Seq<char>) -> Seq<u8>
    decreases s.len(),
{
    if s.len() < 4 {
        seq![]
    } else {
        let v0 = sextet_value(s[0]);
        let v1 = sextet_value(s[1]);
        let v2 = sextet_value(s[2]);
        let v3 = sextet_value(s[3]);
        let first = (v0 * 4 + v1 / 16) as u8;
        let second = ((v1 % 16) * 16 + v2 / 4) as u8;
        let third = ((v2 % 4) * 64 + v3) as u8;
        let group = if s[2] == pad() {
            seq![first]
        } else if s[3] == pad() {
            seq![first, second]
        } else {
            seq![first, second, third]
        };
        group + decoded(s.subrange(4, s.len() as int))
    }
}

/// The length of the standard base64 text of `n` bytes.
pub open spec fn encoded_length(n: nat) -> nat {
    4 * ((n + 2) / 3)
}

/// Relies on base64's `general_purpose::STANDARD.encode`: the standard
/// alphabet with `=` padding. It panics where the length of the text would
/// not fit in `usize`.
#[verifier::external_body]
fn standard_encode(bytes: &[u8]) -> (r: String)
    requires
        encoded_length(bytes@.len()) <= usize::MAX,
    ensures
        r@ == encoded(bytes@),
{
    general_purpose::STANDARD.encode(bytes)
}

/// The standard base64 text of `bytes`.
pub fn encode_base64(bytes: &[u8]) -> (r: String)
    requires
        encoded_length(bytes@.len()) <= usize::MAX,
    ensures
        r@ == encoded(bytes@),
        r@.len() == encoded_length(bytes@.len()),
{
    proof {
        lemma_encoded_length(bytes@);
    }
    standard_encode(bytes)
}

/// The text of `b` has four characters for each group of three bytes or
/// fewer.
pub proof fn lemma_encoded_length(b: Seq<u8>)
    ensures
        encoded(b).len() == encoded_length(b.len()),
    decreases b.len(),
{
    if b.len() > 2 {
        lemma_encoded_length(b.subrange(3, b.len() as int));
    }
}

/// Decoding the text of `b` gives `b` back, for every byte sequence,
/// the empty one included.
pub proof fn lemma_round_trip(b: Seq<u8>)
    ensures
        decoded(encoded(b)) == b,
    decreases b.len(),
{
    let s = encoded(b);
    if b.len() == 0 {
    } else if b.len() == 1 {
        lemma_single_byte(b[0] as int);
        assert(decoded(s.subrange(4, 4)) == Seq::<u8>::empty());
        assert(decoded(s) =~= b);
    } else if b.len() == 2 {
        lemma_two_bytes(b[0] as int, b[1] as int);
        assert(decoded(s.subrange(4, 4)) == Seq::<u8>::empty());
        assert(decoded(s) =~= b);
    } else {
        let rest = b.subrange(3, b.len() as int);
        lemma_triple(b[0] as int, b[1] as int, b[2] as int);
        lemma_round_trip(rest);
        assert(s.subrange(4, s.len() as int) =~= encoded(rest));
        assert(decoded(s) =~= b);
    }
}

proof fn lemma_single_byte(b0: int)
    requires
        0 <= b0 < 256,
    ensures
        sextet_value(sextet_char(b0 / 4)) * 4 + sextet_value(sextet_char((b0 % 4) * 16)) / 16
            == b0,
        sextet_char((b0 % 4) * 16) != pad(),
{
    lemma_sextet(b0 / 4);
    lemma_sextet((b0 % 4) * 16);
}

proof fn lemma_two_bytes(b0: int, b1: int)
    requires
        0 <= b0 < 256,
        0 <= b1 < 256,
    ensures
        ({
            let v0 = sextet_value(sextet_char(b0 / 4));
            let v1 = sextet_value(sextet_char((b0 % 4) * 16 + b1 / 16));
            let v2 = sextet_value(sextet_char((b1 % 16) * 4));
            &&& v0 * 4 + v1 / 16 == b0
            &&& (v1 % 16) * 16 + v2 / 4 == b1
        }),
        sextet_char((b1 % 16) * 4) != pad(),
{
    lemma_sextet(b0 / 4);
    lemma_sextet((b0 % 4) * 16 + b1 / 16);
    lemma_sextet((b1 % 16) * 4);
}

proof fn lemma_triple(b0: int, b1: int, b2: int)
    requires
        0 <= b0 < 256,
        0 <= b1 < 256,
        0 <= b2 < 256,
    ensures
        ({
            let v0 = sextet_value(sextet_char(b0 / 4));
            let v1 = sextet_value(sextet_char((b0 % 4) * 16 + b1 / 16));
            let v2 = sextet_value(sextet_char((b1 % 16) * 4 + b2 / 64));
            let v3 = sextet_value(sextet_char(b2 % 64));
            &&& v0 * 4 + v1 / 16 == b0
            &&& (v1 % 16) * 16 + v2 / 4 == b1
            &&& (v2 % 4) * 64 + v3 == b2
        }),
        sextet_char((b1 % 16) * 4 + b2 / 64) != pad(),
        sextet_char(b2 % 64) != pad(),
{
    lemma_sextet(b0 / 4);
    lemma_sextet((b0 % 4) * 16 + b1 / 16);
    lemma_sextet((b1 % 16) * 4 + b2 / 64);
    lemma_sextet(b2 % 64);
}

/// Each six-bit value has its own character, which is not the padding.
pub proof fn lemma_sextet(v: int)
    requires
        0 <= v < 64,
    ensures
        sextet_value(sextet_char(v)) == v,
        sextet_char(v) != pad(),
{
}

/// Two byte sequences have the same text only if they are equal: the text is
/// a function of the bytes alone, and different bytes never share one.
pub proof fn lemma_encoded_injective(a: Seq<u8>, b: Seq<u8>)
    ensures
        encoded(a) == encoded(b) <==> a == b,
{
    lemma_round_trip(a);
    lemma_round_trip(b);
}

/// The text of any bytes holds only characters of the standard alphabet and
/// the padding.
pub proof fn lemma_encoded_alphabet(b: Seq<u8>)
    ensures
        forall|i: int| 0 <= i < encoded(b).len() ==> is_base64_char(#[trigger] encoded(b)[i]),
    decreases b.len(),
{
    if b.len() > 2 {
        let rest = b.subrange(3, b.len() as int);
        lemma_encoded_alphabet(rest);
        let s = encoded(b);
        assert forall|i: int| 0 <= i < s.len() implies is_base64_char(#[trigger] s[i]) by {
            if i >= 4 {
                assert(s[i] == encoded(rest)[i - 4]);
            }
        }
    }
}

} // verus!
