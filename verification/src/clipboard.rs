//! What the terminal is sent to put text on the clipboard: the text in
//! base64, inside an OSC 52 sequence.
use vstd::prelude::*;

use crate::text::{chars_of, extend_chars, string_of};

verus! {

/// The base64 digit of a value below 64.
pub open spec fn base64_digit(v: int) -> char {
    if v < 26 {
        ('A' as int + v) as char
    } else if v < 52 {
        ('a' as int + (v - 26)) as char
    } else if v < 62 {
        ('0' as int + (v - 52)) as char
    } else if v == 62 {
        '+'
    } else {
        '/'
    }
}

/// Base64 (standard alphabet, with padding) of a byte sequence: each group
/// of three bytes gives four digits; a last group of one or two bytes is
/// padded with `=`.
pub open spec fn base64_of(b: Seq<u8>) -> Seq<char>
    decreases b.len(),
{
    if b.len() == 0 {
        Seq::<char>::empty()
    } else {
        let b0 = b[0] as int;
        let b1 = if b.len() > 1 {
            b[1] as int
        } else {
            0
        };
        let b2 = if b.len() > 2 {
            b[2] as int
        } else {
            0
        };
        let group = seq![
            base64_digit(b0 / 4),
            base64_digit((b0 % 4) * 16 + b1 / 16),
            if b.len() > 1 {
                base64_digit((b1 % 16) * 4 + b2 / 64)
            } else {
                '='
            },
            if b.len() > 2 {
                base64_digit(b2 % 64)
            } else {
                '='
            },
        ];
        if b.len() <= 3 {
            group
        } else {
            group + base64_of(b.skip(3))
        }
    }
}

/// The value of a base64 digit; 0 for a character outside the alphabet.
pub open spec fn base64_value(c: char) -> int {
    if 'A' <= c && c <= 'Z' {
        c as int - 'A' as int
    } else if 'a' <= c && c <= 'z' {
        c as int - 'a' as int + 26
    } else if '0' <= c && c <= '9' {
        c as int - '0' as int + 52
    } else if c == '+' {
        62
    } else if c == '/' {
        63
    } else {
        0
    }
}

/// The bytes of base64 text: each group of four digits gives three bytes,
/// one less for each `=` that ends it.
pub open spec fn base64_decoded(t: Seq<char>) -> Seq<u8>
    decreases t.len(),
{
    if t.len() < 4 {
        Seq::<u8>::empty()
    } else {
        let v0 = base64_value(t[0]);
        let v1 = base64_value(t[1]);
        let v2 = base64_value(t[2]);
        let v3 = base64_value(t[3]);
        let b0 = (v0 * 4 + v1 / 16) as u8;
        let b1 = ((v1 % 16) * 16 + v2 / 4) as u8;
        let b2 = ((v2 % 4) * 64 + v3) as u8;
        let group = if t[2] == '=' {
            seq![b0]
        } else if t[3] == '=' {
            seq![b0, b1]
        } else {
            seq![b0, b1, b2]
        };
        group + base64_decoded(t.skip(4))
    }
}

proof fn lemma_digit_value(v: int)
    requires
        0 <= v < 64,
    ensures
        base64_value(base64_digit(v)) == v,
        base64_digit(v) != '=',
{
}

/// The bytes of one group come back from its four digits.
proof fn lemma_group_bytes(b0: int, b1: int, b2: int)
    requires
        0 <= b0 < 256,
        0 <= b1 < 256,
        0 <= b2 < 256,
    ensures
        0 <= b0 / 4 < 64,
        0 <= (b0 % 4) * 16 + b1 / 16 < 64,
        0 <= (b1 % 16) * 4 + b2 / 64 < 64,
        0 <= b2 % 64 < 64,
        (b0 / 4) * 4 + ((b0 % 4) * 16 + b1 / 16) / 16 == b0,
        (((b0 % 4) * 16 + b1 / 16) % 16) * 16 + ((b1 % 16) * 4 + b2 / 64) / 4 == b1,
        (((b1 % 16) * 4 + b2 / 64) % 4) * 64 + b2 % 64 == b2,
{
    assert(0 <= b0 / 4 < 64) by (nonlinear_arith) requires 0 <= b0 < 256;
    assert(0 <= (b0 % 4) * 16 + b1 / 16 < 64) by (nonlinear_arith) requires 0 <= b0 < 256, 0 <= b1 < 256;
    assert(0 <= (b1 % 16) * 4 + b2 / 64 < 64) by (nonlinear_arith) requires 0 <= b1 < 256, 0 <= b2 < 256;
    assert(((b0 % 4) * 16 + b1 / 16) / 16 == b0 % 4) by (nonlinear_arith) requires 0 <= b0 < 256, 0 <= b1 < 256;
    assert((b0 / 4) * 4 + b0 % 4 == b0) by (nonlinear_arith) requires 0 <= b0 < 256;
    assert(((b0 % 4) * 16 + b1 / 16) % 16 == b1 / 16) by (nonlinear_arith) requires 0 <= b0 < 256, 0 <= b1 < 256;
    assert(((b1 % 16) * 4 + b2 / 64) / 4 == b1 % 16) by (nonlinear_arith) requires 0 <= b1 < 256, 0 <= b2 < 256;
    assert((b1 / 16) * 16 + b1 % 16 == b1) by (nonlinear_arith) requires 0 <= b1 < 256;
    assert(((b1 % 16) * 4 + b2 / 64) % 4 == b2 / 64) by (nonlinear_arith) requires 0 <= b1 < 256, 0 <= b2 < 256;
    assert((b2 / 64) * 64 + b2 % 64 == b2) by (nonlinear_arith) requires 0 <= b2 < 256;
}

/// Base64 text is four digits for every three bytes, the last group
/// padded; and it gives the bytes back.
pub proof fn lemma_base64_round_trip(b: Seq<u8>)
    ensures
        base64_of(b).len() == 4 * ((b.len() + 2) / 3),
        base64_decoded(base64_of(b)) == b,
    decreases b.len(),
{
    if b.len() > 0 {
        let b0 = b[0] as int;
        let b1 = if b.len() > 1 {
            b[1] as int
        } else {
            0
        };
        let b2 = if b.len() > 2 {
            b[2] as int
        } else {
            0
        };
        lemma_group_bytes(b0, b1, b2);
        lemma_digit_value(b0 / 4);
        lemma_digit_value((b0 % 4) * 16 + b1 / 16);
        lemma_digit_value((b1 % 16) * 4 + b2 / 64);
        lemma_digit_value(b2 % 64);
        let t = base64_of(b);
        let group = t.take(4);
        if b.len() <= 3 {
            assert(t.skip(4) =~= Seq::<char>::empty());
            assert(base64_decoded(t.skip(4)) =~= Seq::<u8>::empty());
            if b.len() == 1 {
                assert(base64_decoded(t) =~= b);
            } else if b.len() == 2 {
                assert(base64_decoded(t) =~= b);
            } else {
                assert(base64_decoded(t) =~= b);
            }
        } else {
            let rest = b.skip(3);
            lemma_base64_round_trip(rest);
            assert(t.skip(4) =~= base64_of(rest));
            assert((b.len() - 3 + 2) / 3 + 1 == (b.len() + 2) / 3);
            assert(base64_decoded(t) =~= seq![b[0], b[1], b[2]] + rest);
            assert(seq![b[0], b[1], b[2]] + rest =~= b);
        }
    }
}

fn digit(v: u8) -> (r: char)
    requires
        v < 64,
    ensures
        r == base64_digit(v as int),
{
    if v < 26 {
        let c: u8 = 65 + v;
        c as char
    } else if v < 52 {
        let c: u8 = 97 + (v - 26);
        c as char
    } else if v < 62 {
        let c: u8 = 48 + (v - 52);
        c as char
    } else if v == 62 {
        '+'
    } else {
        '/'
    }
}

/// The digits still to come once the first `i` bytes are done.
pub open spec fn base64_tail(b: Seq<u8>, i: int) -> Seq<char> {
    if i < b.len() {
        base64_of(b.skip(i))
    } else {
        Seq::<char>::empty()
    }
}

/// The base64 text of some bytes.
pub fn base64_encode(bytes: &[u8]) -> (r: String)
    ensures
        r@ == base64_of(bytes@),
        r@.len() == 4 * ((bytes@.len() + 2) / 3),
        base64_decoded(r@) == bytes@,
{
    proof {
        lemma_base64_round_trip(bytes@);
    }
    let mut out: Vec<char> = Vec::new();
    let mut index: usize = 0;
    assert(bytes@.skip(0) =~= bytes@);
    while index < bytes.len()
        invariant
            index <= bytes@.len(),
            out@ + base64_tail(bytes@, index as int) == base64_of(bytes@),
        decreases bytes@.len() - index,
    {
        let remaining = bytes.len() - index;
        let first = bytes[index];
        let second: u8 = if remaining > 1 {
            bytes[index + 1]
        } else {
            0
        };
        let third: u8 = if remaining > 2 {
            bytes[index + 2]
        } else {
            0
        };
        let ghost rest = bytes@.skip(index as int);
        let ghost before = out@;
        out.push(digit(first / 4));
        out.push(digit((first % 4) * 16 + second / 16));
        if remaining > 1 {
            out.push(digit((second % 16) * 4 + third / 64));
        } else {
            out.push('=');
        }
        if remaining > 2 {
            out.push(digit(third % 64));
        } else {
            out.push('=');
        }
        proof {
            assert(rest[0] == first);
            if remaining > 1 {
                assert(rest[1] == second);
            }
            if remaining > 2 {
                assert(rest[2] == third);
            }
            let group = out@.skip(before.len() as int);
            assert(out@ =~= before + group);
            if remaining > 3 {
                assert(rest.skip(3) =~= bytes@.skip(index + 3));
                assert(base64_of(rest) == group + base64_of(rest.skip(3)));
                assert(before + base64_of(rest) =~= out@ + base64_of(bytes@.skip(index + 3)));
            } else {
                assert(base64_of(rest) == group);
            }
        }
        if remaining <= 3 {
            index = bytes.len();
        } else {
            index = index + 3;
        }
    }
    assert(out@ + Seq::<char>::empty() =~= out@);
    string_of(out.as_slice())
}

/// The OSC 52 sequence that puts text (given as its bytes) on the
/// clipboard.
pub open spec fn osc52_of(bytes: Seq<u8>) -> Seq<char> {
    seq!['\u{1b}', ']', '5', '2', ';', 'c', ';'] + base64_of(bytes) + seq!['\u{7}']
}

pub fn osc52_sequence(bytes: &[u8]) -> (r: String)
    ensures
        r@ == osc52_of(bytes@),
{
    let mut v: Vec<char> = Vec::new();
    v.push('\u{1b}');
    v.push(']');
    v.push('5');
    v.push('2');
    v.push(';');
    v.push('c');
    v.push(';');
    let b = base64_encode(bytes);
    let bc = chars_of(b.as_str());
    extend_chars(&mut v, bc.as_slice());
    v.push('\u{7}');
    assert(v@ =~= osc52_of(bytes@));
    string_of(v.as_slice())
}

} // verus!
