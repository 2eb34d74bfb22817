//! Evaluation of the integer expressions that describe how a value is
//! computed from the bytes of a data point, such as `(B1<<8)+B0`.
//!
//! An expression is read token by token from a position in its text. A token
//! is found after white space, but the position moves on by the length of the
//! token only, counted from where the white space began; where a token is
//! not wanted, the position moves back by that length. Reading at or past
//! the end of the text gives the end token.
#![allow(non_snake_case)]

use vstd::prelude::*;
use vstd::string::StringExecFns;

use crate::codegen::strings::push_char;

verus! {

/// The tokens of an expression.
#[derive(Debug, Clone, Copy, PartialEq, Eq, Structural)]
pub enum Token {
    /// `0x`, the start of a hexadecimal number.
    Hex,
    /// One of `a` to `f`.
    HexDigit,
    /// One of `0` to `9` (a `0` not followed by `x`).
    Digit,
    /// `.`
    Punkt,
    /// The end of the text.
    End,
    /// Anything else.
    Error,
    /// `+`
    Plus,
    /// `-`
    Minus,
    /// `*`
    Mal,
    /// `/`
    Geteilt,
    /// `%`
    Modulo,
    /// `(`
    KAuf,
    /// `)`
    KZu,
    /// `B0` to `B9`: a byte of the value.
    Byte(u8),
    /// `P0` to `P9`: a byte of the parameters.
    PByte(u8),
    /// `BP`: the bit position.
    BitPos,
    /// `V`: the value.
    Value,
    /// `~`
    Nicht,
    /// `&`
    Und,
    /// `|`
    Oder,
    /// `^`
    Xor,
    /// `<<`
    Shl,
    /// `>>`
    Shr,
}

/// ASCII texts without zero bytes.
pub open spec fn ascii_text(s: Seq<u8>) -> bool {
    forall|i: int| 0 <= i < s.len() ==> 0 < #[trigger] s[i] < 0x80
}

/// ASCII white space, the white space that `char::is_whitespace` finds in
/// ASCII text.
pub open spec fn is_ascii_space(b: u8) -> bool {
    b == 0x20 || (0x09 <= b <= 0x0D)
}

/// The byte at a position, zero at and past the end.
pub open spec fn byte_at(s: Seq<u8>, i: int) -> u8 {
    if 0 <= i < s.len() {
        s[i]
    } else {
        0
    }
}

/// The first position at or after `p` that holds no white space.
pub open spec fn skip_space(s: Seq<u8>, p: int) -> int
    decreases s.len() - p,
{
    if 0 <= p < s.len() && is_ascii_space(s[p]) {
        skip_space(s, p + 1)
    } else {
        p
    }
}

/// The digit of a byte `0` to `9`.
pub open spec fn digit_of(b: u8) -> u8 {
    (b - 0x30) as u8
}

/// The token at a position, with the length by which it moves the position.
pub open spec fn token(s: Seq<u8>, p: int) -> (Token, int) {
    let q = skip_space(s, p);
    let c = byte_at(s, q);
    let d = byte_at(s, q + 1);
    if q >= s.len() {
        (Token::End, 1)
    } else if c == 0x2B {
        (Token::Plus, 1)
    } else if c == 0x2D {
        (Token::Minus, 1)
    } else if c == 0x2A {
        (Token::Mal, 1)
    } else if c == 0x2F {
        (Token::Geteilt, 1)
    } else if c == 0x25 {
        (Token::Modulo, 1)
    } else if c == 0x28 {
        (Token::KAuf, 1)
    } else if c == 0x29 {
        (Token::KZu, 1)
    } else if c == 0x56 {
        (Token::Value, 1)
    } else if c == 0x5E {
        (Token::Xor, 1)
    } else if c == 0x26 {
        (Token::Und, 1)
    } else if c == 0x7C {
        (Token::Oder, 1)
    } else if c == 0x7E {
        (Token::Nicht, 1)
    } else if c == 0x30 {
        if d == 0x78 {
            (Token::Hex, 2)
        } else {
            (Token::Digit, 1)
        }
    } else if c == 0x3C {
        (if d == 0x3C { Token::Shl } else { Token::Error }, 2)
    } else if c == 0x3E {
        (if d == 0x3E { Token::Shr } else { Token::Error }, 2)
    } else if c == 0x42 {
        (
            if 0x30 <= d <= 0x39 {
                Token::Byte(digit_of(d))
            } else if d == 0x50 {
                Token::BitPos
            } else {
                Token::Error
            },
            2,
        )
    } else if c == 0x50 {
        (if 0x30 <= d <= 0x39 { Token::PByte(digit_of(d)) } else { Token::Error }, 2)
    } else if 0x31 <= c <= 0x39 {
        (Token::Digit, 1)
    } else if 0x61 <= c <= 0x66 {
        (Token::HexDigit, 1)
    } else if c == 0x2E {
        (Token::Punkt, 1)
    } else {
        (Token::Error, 1)
    }
}

proof fn lemma_skip_space(s: Seq<u8>, p: int)
    ensures
        skip_space(s, p) >= p,
        p < s.len() ==> skip_space(s, p) <= s.len(),
        0 <= skip_space(s, p) < s.len() ==> !is_ascii_space(s[skip_space(s, p)]),
    decreases s.len() - p,
{
    if 0 <= p < s.len() && is_ascii_space(s[p]) {
        lemma_skip_space(s, p + 1);
    }
}

/// A token other than the end lies before the end of the text, and moves
/// the position by one or two.
pub proof fn lemma_token(s: Seq<u8>, p: int)
    ensures
        1 <= token(s, p).1 <= 2,
        skip_space(s, p) >= p,
        token(s, p).0 != Token::End ==> p + token(s, p).1 <= s.len() + 1,
        token(s, p).0 != Token::End && token(s, p).0 != Token::Error ==> p + token(s, p).1 <= s.len(),
        token(s, p).0 != Token::End ==> p < s.len(),
        token(s, p).0 != Token::End ==> skip_space(s, p) < s.len(),
        token(s, p).0 is Byte ==> token(s, p).0->Byte_0 < 10,
        token(s, p).0 is PByte ==> token(s, p).0->PByte_0 < 10,
        token(s, p).1 == 2 ==> (token(s, p).0 != Token::Error && token(s, p).0 != Token::End
            ==> skip_space(s, p) + 1 < s.len()),
{
    lemma_skip_space(s, p);
}

/// Whether a byte is ASCII white space.
fn is_space(b: u8) -> (res: bool)
    ensures
        res == is_ascii_space(b),
{
    b == 0x20 || (0x09 <= b && b <= 0x0D)
}

/// The byte at a position, zero at and past the end.
fn get_byte(s: &[u8], i: usize) -> (res: u8)
    ensures
        res == byte_at(s@, i as int),
{
    if i < s.len() {
        s[i]
    } else {
        0
    }
}

/// The token at a position, the length by which it moves the position, and
/// the position of its first character.
pub fn nextToken(s: &[u8], pos: usize) -> (res: (Token, usize, usize))
    requires
        pos <= 2 * s@.len() + 2,
        2 * s@.len() + 4 < usize::MAX,
    ensures
        (res.0, res.1 as int) == token(s@, pos as int),
        res.2 == skip_space(s@, pos as int),
{
    let mut q: usize = pos;
    while q < s.len() && is_space(s[q])
        invariant
            pos <= q,
            q <= 2 * s@.len() + 2,
            skip_space(s@, pos as int) == skip_space(s@, q as int),
        decreases s@.len() - q,
    {
        q = q + 1;
    }
    let c = get_byte(s, q);
    let d = get_byte(s, q + 1);
    let t: (Token, usize) = if q >= s.len() {
        (Token::End, 1)
    } else if c == 0x2B {
        (Token::Plus, 1)
    } else if c == 0x2D {
        (Token::Minus, 1)
    } else if c == 0x2A {
        (Token::Mal, 1)
    } else if c == 0x2F {
        (Token::Geteilt, 1)
    } else if c == 0x25 {
        (Token::Modulo, 1)
    } else if c == 0x28 {
        (Token::KAuf, 1)
    } else if c == 0x29 {
        (Token::KZu, 1)
    } else if c == 0x56 {
        (Token::Value, 1)
    } else if c == 0x5E {
        (Token::Xor, 1)
    } else if c == 0x26 {
        (Token::Und, 1)
    } else if c == 0x7C {
        (Token::Oder, 1)
    } else if c == 0x7E {
        (Token::Nicht, 1)
    } else if c == 0x30 {
        if d == 0x78 {
            (Token::Hex, 2)
        } else {
            (Token::Digit, 1)
        }
    } else if c == 0x3C {
        (if d == 0x3C { Token::Shl } else { Token::Error }, 2)
    } else if c == 0x3E {
        (if d == 0x3E { Token::Shr } else { Token::Error }, 2)
    } else if c == 0x42 {
        (
            if 0x30 <= d && d <= 0x39 {
                Token::Byte(d - 0x30)
            } else if d == 0x50 {
                Token::BitPos
            } else {
                Token::Error
            },
            2,
        )
    } else if c == 0x50 {
        (if 0x30 <= d && d <= 0x39 { Token::PByte(d - 0x30) } else { Token::Error }, 2)
    } else if 0x31 <= c && c <= 0x39 {
        (Token::Digit, 1)
    } else if 0x61 <= c && c <= 0x66 {
        (Token::HexDigit, 1)
    } else if c == 0x2E {
        (Token::Punkt, 1)
    } else {
        (Token::Error, 1)
    };
    (t.0, t.1, q)
}

/// The position moved back by the length of a token that is not wanted.
pub fn pushBack(pos: usize, count: usize) -> (res: usize)
    requires
        count <= pos,
    ensures
        res == pos - count,
{
    pos - count
}

/// How much text is left to read from a position: reading moves forward,
/// at most two past the end.
pub open spec fn rest_len(s: Seq<u8>, p: int) -> int {
    if p <= s.len() + 2 {
        s.len() + 2 - p
    } else {
        0
    }
}

/// What evaluating part of an expression gives: its value, how far it moved
/// the position, the error text, and whether an operation overflowed (the
/// evaluation then panics).
pub struct IntEval {
    pub value: i32,
    pub consumed: nat,
    pub err: Option<Seq<char>>,
    pub overflow: bool,
}

/// The value of digits in a radix, the last digit lowest.
pub open spec fn radix_value(digits: Seq<u8>, radix: int) -> int
    decreases digits.len(),
{
    if digits.len() == 0 {
        0
    } else {
        radix_value(digits.drop_last(), radix) * radix + digit_value(digits.last())
    }
}

/// The value of a digit `0` to `9` or `a` to `f`.
pub open spec fn digit_value(b: u8) -> int {
    if 0x61 <= b {
        b - 0x61 + 10
    } else {
        b - 0x30
    }
}

/// The number that `from_str_radix` reads from digits, or 0 where it fails:
/// for no digits, and for a number that does not fit an `i32`.
pub open spec fn number_value(digits: Seq<u8>, radix: int) -> i32 {
    if digits.len() == 0 || radix_value(digits, radix) > i32::MAX {
        0
    } else {
        radix_value(digits, radix) as i32
    }
}

/// The digits of a hexadecimal number, read up to the first token that is
/// no digit, and the position before that token.
pub open spec fn hex_digits(s: Seq<u8>, p: int) -> (Seq<u8>, int)
    decreases rest_len(s, p),
{
    let (t, n) = token(s, p);
    if t == Token::Digit || t == Token::HexDigit {
        proof {
            lemma_token(s, p);
        }
        let rest = hex_digits(s, p + n);
        (seq![byte_at(s, skip_space(s, p))] + rest.0, rest.1)
    } else {
        (Seq::empty(), p)
    }
}

/// The digits after a decimal point, and the position before the first token
/// that is no digit.
pub open spec fn fraction_digits(s: Seq<u8>, p: int) -> (Seq<u8>, int)
    decreases rest_len(s, p),
{
    let (t, n) = token(s, p);
    if t == Token::Digit {
        proof {
            lemma_token(s, p);
        }
        let rest = fraction_digits(s, p + n);
        (seq![byte_at(s, skip_space(s, p))] + rest.0, rest.1)
    } else {
        (Seq::empty(), p)
    }
}

/// The rest of a decimal number: its digits, a point and the digits after
/// it, whether there is a point, and the position after the number.
pub open spec fn decimal_digits(s: Seq<u8>, p: int) -> (Seq<u8>, bool, int)
    decreases rest_len(s, p),
{
    let (t, n) = token(s, p);
    proof {
        lemma_token(s, p);
    }
    if t == Token::Digit {
        let rest = decimal_digits(s, p + n);
        (seq![byte_at(s, skip_space(s, p))] + rest.0, rest.1, rest.2)
    } else if t == Token::Punkt {
        let rest = fraction_digits(s, p + n);
        (seq![0x2Eu8] + rest.0, true, rest.1)
    } else {
        (Seq::empty(), false, p)
    }
}

/// The quotient of Rust's `/`, rounded towards zero.
pub open spec fn quotient(a: int, b: int) -> int {
    let q = (if a < 0 { -a } else { a }) / (if b < 0 { -b } else { b });
    if (a < 0) != (b < 0) {
        -q
    } else {
        q
    }
}

/// Whether an `i32` operation of a term fails: an overflow, a division by
/// zero, or a shift by a negative amount or by 32 or more.
pub open spec fn op_fails(t: Token, a: i32, b: i32) -> bool {
    match t {
        Token::Mal => !(i32::MIN <= a * b <= i32::MAX),
        Token::Geteilt | Token::Modulo => b == 0 || (a == i32::MIN && b == -1),
        Token::Shl | Token::Shr => b < 0 || b >= 32,
        _ => false,
    }
}

/// The result of an operation of a term.
pub open spec fn op_value(t: Token, a: i32, b: i32) -> i32 {
    match t {
        Token::Mal => (a * b) as i32,
        Token::Geteilt => quotient(a as int, b as int) as i32,
        Token::Modulo => (a - b * quotient(a as int, b as int)) as i32,
        Token::Und => a & b,
        Token::Oder => a | b,
        Token::Xor => a ^ b,
        Token::Shl => a << (b as u32),
        Token::Shr => a >> (b as u32),
        _ => a,
    }
}

/// The operators of a term.
pub open spec fn is_term_op(t: Token) -> bool {
    t == Token::Mal || t == Token::Geteilt || t == Token::Modulo || t == Token::Und || t
        == Token::Oder || t == Token::Xor || t == Token::Shl || t == Token::Shr
}

/// Bit `k` of a 32-bit number, counted from its lowest bit.
pub open spec fn bit_of(x: i32, k: u32) -> bool {
    (x >> k) & 1i32 == 1i32
}

/// The bitwise operators of a term work bit by bit: bit `k` of `a & b` is set
/// where both bits are, of `a | b` where either is, of `a ^ b` where exactly
/// one is.
pub proof fn lemma_bitwise_ops(a: i32, b: i32, k: u32)
    requires
        k < 32,
    ensures
        bit_of(op_value(Token::Und, a, b), k) == (bit_of(a, k) && bit_of(b, k)),
        bit_of(op_value(Token::Oder, a, b), k) == (bit_of(a, k) || bit_of(b, k)),
        bit_of(op_value(Token::Xor, a, b), k) == (bit_of(a, k) != bit_of(b, k)),
{
    let x = op_value(Token::Und, a, b);
    let y = op_value(Token::Oder, a, b);
    let z = op_value(Token::Xor, a, b);
    assert(x == a & b && y == a | b && z == a ^ b);
    assert(((x >> k) & 1i32 == 1i32) == (((a >> k) & 1i32 == 1i32) && ((b >> k) & 1i32 == 1i32)))
        by (bit_vector)
        requires
            x == a & b,
            k < 32,
    ;
    assert(((y >> k) & 1i32 == 1i32) == (((a >> k) & 1i32 == 1i32) || ((b >> k) & 1i32 == 1i32)))
        by (bit_vector)
        requires
            y == a | b,
            k < 32,
    ;
    assert(((z >> k) & 1i32 == 1i32) == (((a >> k) & 1i32 == 1i32) != ((b >> k) & 1i32 == 1i32)))
        by (bit_vector)
        requires
            z == a ^ b,
            k < 32,
    ;
}

/// The shifts of a term move bits: bit `k` of `a << n` is bit `k - n` of `a`,
/// or clear below `n`; bit `k` of `a >> n` is bit `k + n` of `a`, or the sign
/// bit past the top.
pub proof fn lemma_shift_ops(a: i32, n: i32, k: u32)
    requires
        0 <= n < 32,
        k < 32,
    ensures
        bit_of(op_value(Token::Shl, a, n), k) == (k >= n && bit_of(a, (k - n) as u32)),
        bit_of(op_value(Token::Shr, a, n), k) == if k + n < 32 {
            bit_of(a, (k + n) as u32)
        } else {
            bit_of(a, 31)
        },
{
    let m = n as u32;
    let x = op_value(Token::Shl, a, n);
    let y = op_value(Token::Shr, a, n);
    assert(x == a << m && y == a >> m);
    if k >= m {
        let d = (k - m) as u32;
        assert(((x >> k) & 1i32 == 1i32) == ((a >> d) & 1i32 == 1i32)) by (bit_vector)
            requires
                x == a << m,
                m < 32,
                k < 32,
                d + m == k,
        ;
    } else {
        assert((x >> k) & 1i32 != 1i32) by (bit_vector)
            requires
                x == a << m,
                m < 32,
                k < m,
        ;
    }
    if k + m < 32 {
        let e = (k + m) as u32;
        assert(((y >> k) & 1i32 == 1i32) == ((a >> e) & 1i32 == 1i32)) by (bit_vector)
            requires
                y == a >> m,
                m < 32,
                e == k + m,
                e < 32,
        ;
    } else {
        assert(((y >> k) & 1i32 == 1i32) == ((a >> 31u32) & 1i32 == 1i32)) by (bit_vector)
            requires
                y == a >> m,
                m < 32,
                k < 32,
                k + m >= 32,
        ;
    }
}

/// The arithmetic operators of a term, where they do not fail: `*` gives the
/// product; `/` and `%` give a quotient and a remainder with
/// `quotient * b + remainder == a`, the remainder smaller than `b` in size
/// and of the sign of `a`, as Rust's division rounds towards zero.
pub proof fn lemma_arithmetic_ops(a: i32, b: i32)
    ensures
        !op_fails(Token::Mal, a, b) ==> op_value(Token::Mal, a, b) == a * b,
        !op_fails(Token::Geteilt, a, b) ==> ({
            let q = op_value(Token::Geteilt, a, b) as int;
            let r = op_value(Token::Modulo, a, b) as int;
            &&& q * b + r == a
            &&& (if r < 0 {
                -r
            } else {
                r
            }) < (if b < 0 {
                -b
            } else {
                b as int
            })
            &&& (r == 0 || ((r < 0) == (a < 0)))
        }),
{
    if !op_fails(Token::Geteilt, a, b) {
        let aa: int = if a < 0 {
            -a
        } else {
            a as int
        };
        let bb: int = if b < 0 {
            -b
        } else {
            b as int
        };
        let m = aa / bb;
        let t = aa % bb;
        vstd::arithmetic::div_mod::lemma_fundamental_div_mod(aa, bb);
        assert(0 <= t < bb);
        assert(m >= 0) by {
            vstd::arithmetic::div_mod::lemma_div_pos_is_pos(aa, bb);
        }
        assert(m <= aa) by {
            vstd::arithmetic::div_mod::lemma_div_is_ordered_by_denominator(aa, 1, bb);
        }
        let q = quotient(a as int, b as int);
        assert(q == if (a < 0) != (b < 0) {
            -m
        } else {
            m
        });
        assert(i32::MIN <= q <= i32::MAX) by {
            if q == 0x8000_0000int {
                assert(aa == 0x8000_0000int && bb == 1) by (nonlinear_arith)
                    requires
                        m == 0x8000_0000int,
                        aa <= 0x8000_0000int,
                        bb >= 1,
                        aa == bb * m + t,
                        t >= 0,
                ;
            }
        }
        let r = a - b * q;
        assert(r == if a < 0 {
            -t
        } else {
            t
        }) by (nonlinear_arith)
            requires
                aa == bb * m + t,
                aa == (if a < 0 {
                    -a
                } else {
                    a as int
                }),
                bb == (if b < 0 {
                    -b
                } else {
                    b as int
                }),
                q == (if (a < 0) != (b < 0) {
                    -m
                } else {
                    m
                }),
                r == a - b * q,
        ;
        assert(i32::MIN <= r <= i32::MAX);
        assert(op_value(Token::Geteilt, a, b) as int == q);
        assert(op_value(Token::Modulo, a, b) as int == r);
        assert(q * b + r == a) by (nonlinear_arith)
            requires
                r == a - b * q,
        ;
    }
}

/// Evaluating a text `x o y` of two decimal digits joined by a bitwise
/// operator or `*` reads both digits and gives `x & y`, `x | y`, `x ^ y` or
/// `x * y`, with no error; so `3|1` gives 3 and `3^1` gives 2.
pub proof fn lemma_digit_term(x: u8, o: u8, y: u8, b: Seq<u8>, bitpos: i8, pb: Seq<i8>)
    requires
        0x30 <= x <= 0x39,
        0x30 <= y <= 0x39,
        o == 0x26 || o == 0x7C || o == 0x5E || o == 0x2A,
    ensures
        ({
            let r = i_expression(seq![x, o, y], 0, b, bitpos, pb, None);
            let vx = (x - 0x30) as i32;
            let vy = (y - 0x30) as i32;
            &&& r.err is None
            &&& r.consumed == 3
            &&& !r.overflow
            &&& (o == 0x26 ==> r.value == vx & vy)
            &&& (o == 0x7C ==> r.value == vx | vy)
            &&& (o == 0x5E ==> r.value == vx ^ vy)
            &&& (o == 0x2A ==> r.value == vx * vy)
        }),
{
    let s = seq![x, o, y];
    let vx = (x - 0x30) as i32;
    let vy = (y - 0x30) as i32;
    assert(skip_space(s, 0) == 0);
    assert(skip_space(s, 1) == 1);
    assert(skip_space(s, 2) == 2);
    assert(skip_space(s, 3) == 3);
    assert(token(s, 0) == (Token::Digit, 1int));
    let t = token(s, 1).0;
    assert(token(s, 1).1 == 1);
    assert(is_term_op(t));
    assert(token(s, 2) == (Token::Digit, 1int));
    assert(token(s, 3) == (Token::End, 1int));
    assert(decimal_digits(s, 1) == (Seq::<u8>::empty(), false, 1int));
    assert(decimal_digits(s, 3) == (Seq::<u8>::empty(), false, 3int));
    reveal_with_fuel(radix_value, 2);
    assert(seq![x] + Seq::<u8>::empty() =~= seq![x]);
    assert(seq![y] + Seq::<u8>::empty() =~= seq![y]);
    assert(seq![x].drop_last() =~= Seq::<u8>::empty());
    assert(seq![y].drop_last() =~= Seq::<u8>::empty());
    assert(number_value(seq![x], 10) == vx);
    assert(number_value(seq![y], 10) == vy);
    let f1 = i_factor(s, 0, b, bitpos, pb, None);
    assert(f1.value == vx && f1.consumed == 1 && f1.err is None && !f1.overflow);
    let f2 = i_factor(s, 2, b, bitpos, pb, None);
    assert(f2.value == vy && f2.consumed == 1 && f2.err is None && !f2.overflow);
    let v = op_value(t, vx, vy);
    assert(0 <= vx * vy <= 81) by (nonlinear_arith)
        requires
            0 <= vx <= 9,
            0 <= vy <= 9,
    ;
    assert(!op_fails(t, vx, vy));
    let tail = i_term_rest(s, 3, v, b, bitpos, pb, None);
    assert(tail.value == v && tail.consumed == 0 && tail.err is None && !tail.overflow);
    let tr = i_term_rest(s, 1, vx, b, bitpos, pb, None);
    assert(tr.value == v && tr.consumed == 2 && tr.err is None && !tr.overflow);
    let term = i_term(s, 0, b, bitpos, pb, None);
    assert(term.value == v && term.consumed == 3 && term.err is None && !term.overflow);
    let er = i_expression_rest(s, 3, v, b, bitpos, pb, None);
    assert(er.value == v && er.consumed == 0 && er.err is None && !er.overflow);
}

/// The error text for a factor that is missing, naming the character found.
pub open spec fn factor_message(item: u8) -> Seq<char> {
    "expected factor: B0..B9 P0..P9 BP number ( ) ["@ + seq![item as char] + "]\n"@
}

/// The error text for a missing closing bracket, naming the character found.
pub open spec fn bracket_message(item: u8) -> Seq<char> {
    "expected factor:) ["@ + seq![item as char] + "]\n"@
}

/// The value of an expression: a sum of terms, each with a sign `+` or `-`,
/// or `~` for the complement; a leading term may go without one.
pub open spec fn i_expression(
    s: Seq<u8>,
    p: int,
    b: Seq<u8>,
    bitpos: i8,
    pb: Seq<i8>,
    err: Option<Seq<char>>,
) -> IntEval
    decreases rest_len(s, p), 4int,
{
    let t = token(s, p).0;
    if t == Token::Plus || t == Token::Minus || t == Token::Nicht {
        i_expression_rest(s, p, 0, b, bitpos, pb, err)
    } else {
        let r = i_term(s, p, b, bitpos, pb, err);
        let q = p + r.consumed;
        if r.err is Some {
            IntEval { value: 0, consumed: r.consumed, err: r.err, overflow: r.overflow }
        } else {
            let rest = i_expression_rest(s, q, r.value, b, bitpos, pb, r.err);
            IntEval {
                value: rest.value,
                consumed: (r.consumed + rest.consumed) as nat,
                err: rest.err,
                overflow: r.overflow || rest.overflow,
            }
        }
    }
}

/// The further terms of an expression, added to the value so far.
pub open spec fn i_expression_rest(
    s: Seq<u8>,
    p: int,
    acc: i32,
    b: Seq<u8>,
    bitpos: i8,
    pb: Seq<i8>,
    err: Option<Seq<char>>,
) -> IntEval
    decreases rest_len(s, p), 3int,
{
    let (t, n) = token(s, p);
    proof {
        lemma_token(s, p);
    }
    if t == Token::Plus || t == Token::Minus || t == Token::Nicht {
        let r = i_term(s, p + n, b, bitpos, pb, err);
        let overflow = r.overflow || (t == Token::Minus && r.value == i32::MIN);
        let v = if t == Token::Minus {
            (-r.value) as i32
        } else if t == Token::Nicht {
            !r.value
        } else {
            r.value
        };
        let q = p + n + r.consumed;
        if r.err is Some {
            IntEval { value: 0, consumed: (q - p) as nat, err: r.err, overflow }
        } else {
            let sum = acc + v;
            let rest = i_expression_rest(s, q, sum as i32, b, bitpos, pb, r.err);
            IntEval {
                value: rest.value,
                consumed: (q - p + rest.consumed) as nat,
                err: rest.err,
                overflow: overflow || !(i32::MIN <= sum <= i32::MAX) || rest.overflow,
            }
        }
    } else {
        IntEval { value: acc, consumed: 0, err, overflow: false }
    }
}

/// The value of a term: factors joined by `*`, `/`, `%`, `&`, `|`, `^`,
/// `<<` and `>>`, from left to right.
pub open spec fn i_term(
    s: Seq<u8>,
    p: int,
    b: Seq<u8>,
    bitpos: i8,
    pb: Seq<i8>,
    err: Option<Seq<char>>,
) -> IntEval
    decreases rest_len(s, p), 2int,
{
    let f = i_factor(s, p, b, bitpos, pb, err);
    let q = p + f.consumed;
    if f.err is Some {
        IntEval { value: 0, consumed: f.consumed, err: f.err, overflow: f.overflow }
    } else {
        let rest = i_term_rest(s, q, f.value, b, bitpos, pb, f.err);
        IntEval {
            value: rest.value,
            consumed: f.consumed + rest.consumed,
            err: rest.err,
            overflow: f.overflow || rest.overflow,
        }
    }
}

/// The further factors of a term, applied to the value so far.
pub open spec fn i_term_rest(
    s: Seq<u8>,
    p: int,
    acc: i32,
    b: Seq<u8>,
    bitpos: i8,
    pb: Seq<i8>,
    err: Option<Seq<char>>,
) -> IntEval
    decreases rest_len(s, p), 1int,
{
    let (t, n) = token(s, p);
    proof {
        lemma_token(s, p);
    }
    if is_term_op(t) {
        let f = i_factor(s, p + n, b, bitpos, pb, err);
        let q = p + n + f.consumed;
        if f.err is Some {
            IntEval { value: 0, consumed: (q - p) as nat, err: f.err, overflow: f.overflow }
        } else {
            let rest = i_term_rest(s, q, op_value(t, acc, f.value), b, bitpos, pb, f.err);
            IntEval {
                value: rest.value,
                consumed: (q - p + rest.consumed) as nat,
                err: rest.err,
                overflow: f.overflow || op_fails(t, acc, f.value) || rest.overflow,
            }
        }
    } else {
        IntEval { value: acc, consumed: 0, err, overflow: false }
    }
}

/// The value of a factor: a byte of the value or of the parameters, the bit
/// position, a hexadecimal or decimal number, an expression in brackets,
/// or the complement `~` of a factor. The bracket tests its expression's
/// error the wrong way round, a known defect kept here as it stands: where
/// the expression has no error the bracket gives 0 and leaves the closing
/// bracket unread; where it has one, the bracket gives its value and checks
/// for the closing bracket.
pub open spec fn i_factor(
    s: Seq<u8>,
    p: int,
    b: Seq<u8>,
    bitpos: i8,
    pb: Seq<i8>,
    err: Option<Seq<char>>,
) -> IntEval
    decreases rest_len(s, p), 0int,
{
    let (t, n) = token(s, p);
    proof {
        lemma_token(s, p);
    }
    let item = byte_at(s, skip_space(s, p));
    match t {
        Token::Byte(i) => IntEval {
            value: (b[i as int] as i32) & 0xff,
            consumed: n as nat,
            err,
            overflow: false,
        },
        Token::BitPos => IntEval {
            value: (bitpos as i32) & 0xff,
            consumed: n as nat,
            err,
            overflow: false,
        },
        Token::PByte(i) => IntEval {
            value: (pb[i as int] as i32) & 0xff,
            consumed: n as nat,
            err,
            overflow: false,
        },
        Token::Hex => {
            let h = hex_digits(s, p + n);
            IntEval {
                value: number_value(h.0, 16),
                consumed: (h.1 - p) as nat,
                err,
                overflow: false,
            }
        },
        Token::Digit => {
            let d = decimal_digits(s, p + n);
            IntEval {
                value: if d.1 {
                    0
                } else {
                    number_value(seq![item] + d.0, 10)
                },
                consumed: (d.2 - p) as nat,
                err,
                overflow: false,
            }
        },
        Token::KAuf => {
            let e = i_expression(s, p + n, b, bitpos, pb, err);
            let q = p + n + e.consumed;
            let (t2, n2) = token(s, q);
            if e.err is None {
                IntEval { value: 0, consumed: (q - p) as nat, err: e.err, overflow: e.overflow }
            } else if t2 != Token::KZu {
                IntEval {
                    value: 0,
                    consumed: (q + n2 - p) as nat,
                    err: Some(bracket_message(byte_at(s, skip_space(s, q)))),
                    overflow: e.overflow,
                }
            } else {
                IntEval {
                    value: e.value,
                    consumed: (q + n2 - p) as nat,
                    err: e.err,
                    overflow: e.overflow,
                }
            }
        },
        Token::Nicht => {
            let f = i_factor(s, p + n, b, bitpos, pb, err);
            IntEval {
                value: !f.value,
                consumed: (n + f.consumed) as nat,
                err: f.err,
                overflow: f.overflow,
            }
        },
        _ => IntEval {
            value: 0,
            consumed: n as nat,
            err: Some(factor_message(item)),
            overflow: false,
        },
    }
}

/// The farthest position that evaluating from a position reaches: past the
/// end by at most one for each bracket left open, and no farther than twice
/// the length of the text.
pub open spec fn pos_bound(len: int, p: int) -> int {
    if p <= len {
        2 * len + 2 - p
    } else {
        p
    }
}

/// The result of evaluating part of an expression: its value, the position
/// after it, and the error text, if any.
#[derive(Debug)]
pub struct Evaluated {
    pub value: i32,
    pub pos: usize,
    pub err: Option<String>,
}

/// The view of an optional text.
pub open spec fn err_view(e: Option<String>) -> Option<Seq<char>> {
    match e {
        Some(m) => Some(m@),
        None => None,
    }
}

/// An evaluation result that starts at `p` and agrees with the spec result.
pub open spec fn evaluated_as(e: Evaluated, p: int, r: IntEval) -> bool {
    &&& e.value == r.value
    &&& e.pos == p + r.consumed
    &&& err_view(e.err) == r.err
}

/// Reads the digits of a hexadecimal number after its `0x`: its value, 0
/// where there are none or it does not fit, and the position after it.
fn read_hex(s: &[u8], pos: usize) -> (res: (i32, usize))
    requires
        pos <= s@.len(),
        2 * s@.len() + 4 < usize::MAX,
    ensures
        res.0 == number_value(hex_digits(s@, pos as int).0, 16),
        res.1 == hex_digits(s@, pos as int).1,
        pos <= res.1 <= s@.len(),
{
    let ghost full = hex_digits(s@, pos as int);
    let ghost mut prefix: Seq<u8> = Seq::empty();
    let mut cur: usize = pos;
    let mut value: u64 = 0;
    let mut big: bool = false;
    loop
        invariant
            pos <= cur <= s@.len(),
            2 * s@.len() + 4 < usize::MAX,
            full == hex_digits(s@, pos as int),
            prefix + hex_digits(s@, cur as int).0 == full.0,
            hex_digits(s@, cur as int).1 == full.1,
            forall|k: int| 0 <= k < prefix.len() ==> digit_value(#[trigger] prefix[k]) >= 0,
            radix_value(prefix, 16) >= 0,
            big == (radix_value(prefix, 16) > i32::MAX),
            !big ==> value == radix_value(prefix, 16),
        ensures
            prefix == full.0,
            cur == full.1,
            big == (radix_value(prefix, 16) > i32::MAX),
            !big ==> value == radix_value(prefix, 16),
        decreases s@.len() - cur,
    {
        let (t, n, q) = nextToken(s, cur);
        proof {
            lemma_token(s@, cur as int);
        }
        if t == Token::Digit || t == Token::HexDigit {
            let c = s[q];
            let d: u64 = if c >= 0x61 {
                (c - 0x61 + 10) as u64
            } else {
                (c - 0x30) as u64
            };
            proof {
                let rest = hex_digits(s@, cur + n);
                assert(hex_digits(s@, cur as int).0 == seq![c] + rest.0);
                assert(prefix + (seq![c] + rest.0) =~= prefix.push(c) + rest.0);
                assert(prefix.push(c).drop_last() =~= prefix);
                assert(digit_value(c) == d);
                prefix = prefix.push(c);
            }
            if !big {
                if value * 16 + d > 0x7fff_ffff {
                    big = true;
                } else {
                    value = value * 16 + d;
                }
            }
            cur = cur + n;
        } else {
            assert(prefix + Seq::<u8>::empty() =~= prefix);
            break;
        }
    }
    let v: i32 = if prefix_is_empty(cur, pos) || big {
        0
    } else {
        value as i32
    };
    proof {
        if prefix.len() == 0 {
            lemma_hex_digits_empty(s@, pos as int);
        } else {
            lemma_digits_advance(s@, pos as int);
        }
    }
    (v, cur)
}

/// Whether reading stayed at its start.
fn prefix_is_empty(cur: usize, pos: usize) -> (res: bool)
    ensures
        res == (cur == pos),
{
    cur == pos
}

proof fn lemma_digits_advance(s: Seq<u8>, p: int)
    requires
        hex_digits(s, p).0.len() > 0,
    ensures
        hex_digits(s, p).1 > p,
    decreases rest_len(s, p),
{
    lemma_token(s, p);
    let (t, n) = token(s, p);
    if t == Token::Digit || t == Token::HexDigit {
        if hex_digits(s, p + n).0.len() > 0 {
            lemma_digits_advance(s, p + n);
        }
    }
}

proof fn lemma_hex_digits_empty(s: Seq<u8>, p: int)
    requires
        hex_digits(s, p).0.len() == 0,
    ensures
        hex_digits(s, p).1 == p,
{
    let (t, n) = token(s, p);
    if t == Token::Digit || t == Token::HexDigit {
        assert(hex_digits(s, p).0.len() > 0);
    }
}

/// Reads the rest of a decimal number whose first digit is `first`: its
/// value, 0 where it has a point or does not fit, and the position after it.
fn read_decimal(s: &[u8], pos: usize, first: u8) -> (res: (i32, usize))
    requires
        pos <= s@.len(),
        0x30 <= first <= 0x39,
        2 * s@.len() + 4 < usize::MAX,
    ensures
        res.0 == (if decimal_digits(s@, pos as int).1 {
            0
        } else {
            number_value(seq![first] + decimal_digits(s@, pos as int).0, 10)
        }),
        res.1 == decimal_digits(s@, pos as int).2,
        pos <= res.1 <= s@.len(),
{
    let ghost full = decimal_digits(s@, pos as int);
    let ghost mut digits: Seq<u8> = seq![first];
    let ghost mut prefix: Seq<u8> = Seq::empty();
    let mut cur: usize = pos;
    let mut value: u64 = (first - 0x30) as u64;
    let mut big: bool = false;
    let mut dot: bool = false;
    assert(digits.drop_last() =~= Seq::<u8>::empty());
    assert(radix_value(Seq::<u8>::empty(), 10) == 0);
    assert(digits.last() == first);
    assert(radix_value(digits, 10) == first - 0x30);
    loop
        invariant_except_break
            !dot,
            prefix + decimal_digits(s@, cur as int).0 == full.0,
            decimal_digits(s@, cur as int).1 == full.1,
            decimal_digits(s@, cur as int).2 == full.2,
        invariant
            pos <= cur <= s@.len(),
            2 * s@.len() + 4 < usize::MAX,
            full == decimal_digits(s@, pos as int),
            digits == seq![first] + prefix,
            forall|k: int| 0 <= k < digits.len() ==> 0x30 <= #[trigger] digits[k] <= 0x39,
            radix_value(digits, 10) >= 0,
            big == (radix_value(digits, 10) > i32::MAX),
            !big ==> value == radix_value(digits, 10),
        ensures
            full.1 == dot,
            !dot ==> prefix == full.0,
            cur == full.2,
            digits == seq![first] + prefix,
            big == (radix_value(digits, 10) > i32::MAX),
            !big ==> value == radix_value(digits, 10),
        decreases s@.len() - cur,
    {
        let (t, n, q) = nextToken(s, cur);
        proof {
            lemma_token(s@, cur as int);
        }
        if t == Token::Digit {
            let c = s[q];
            let d: u64 = (c - 0x30) as u64;
            proof {
                let rest = decimal_digits(s@, cur + n);
                assert(decimal_digits(s@, cur as int).0 == seq![c] + rest.0);
                assert(prefix + (seq![c] + rest.0) =~= prefix.push(c) + rest.0);
                assert(digits.push(c).drop_last() =~= digits);
                assert(seq![first] + prefix.push(c) =~= digits.push(c));
                prefix = prefix.push(c);
                digits = digits.push(c);
            }
            if !big {
                if value * 10 + d > 0x7fff_ffff {
                    big = true;
                } else {
                    value = value * 10 + d;
                }
            }
            cur = cur + n;
        } else if t == Token::Punkt {
            let mut frac: usize = cur + n;
            let ghost start = frac;
            loop
                invariant
                    cur < frac <= s@.len(),
                    2 * s@.len() + 4 < usize::MAX,
                    fraction_digits(s@, frac as int).1 == fraction_digits(s@, start as int).1,
                ensures
                    frac == fraction_digits(s@, start as int).1,
                decreases s@.len() - frac,
            {
                let (t2, n2, _q2) = nextToken(s, frac);
                proof {
                    lemma_token(s@, frac as int);
                }
                if t2 == Token::Digit {
                    frac = frac + n2;
                } else {
                    break;
                }
            }
            cur = frac;
            dot = true;
            break;
        } else {
            assert(prefix + Seq::<u8>::empty() =~= prefix);
            break;
        }
    }
    let v: i32 = if dot || big {
        0
    } else {
        value as i32
    };
    (v, cur)
}

/// The error text for a missing factor.
fn factor_error(item: u8) -> (res: String)
    ensures
        res@ == factor_message(item),
{
    let mut m = String::from_str("expected factor: B0..B9 P0..P9 BP number ( ) [");
    push_char(&mut m, item as char);
    m.append("]\n");
    m
}

/// The error text for a missing closing bracket.
fn bracket_error(item: u8) -> (res: String)
    ensures
        res@ == bracket_message(item),
{
    let mut m = String::from_str("expected factor:) [");
    push_char(&mut m, item as char);
    m.append("]\n");
    m
}

/// Quotient and remainder of Rust's `/` and `%`.
fn divide(a: i32, b: i32) -> (res: (i32, i32))
    requires
        b != 0,
        !(a == i32::MIN && b == -1),
    ensures
        res.0 == quotient(a as int, b as int),
        res.1 == a - b * quotient(a as int, b as int),
{
    let x: i64 = a as i64;
    let y: i64 = b as i64;
    let ax: i64 = if x < 0 {
        -x
    } else {
        x
    };
    let ay: i64 = if y < 0 {
        -y
    } else {
        y
    };
    let q0: i64 = ax / ay;
    assert(0 <= q0 <= ax) by (nonlinear_arith)
        requires
            ax >= 0,
            ay >= 1,
            q0 == ax / ay,
    ;
    assert(0 <= ax - ay * q0 < ay) by (nonlinear_arith)
        requires
            ax >= 0,
            ay >= 1,
            q0 == ax / ay,
    ;
    let q: i64 = if (x < 0) != (y < 0) {
        -q0
    } else {
        q0
    };
    assert(q0 == 0x8000_0000 ==> ay == 1 && ax == 0x8000_0000) by (nonlinear_arith)
        requires
            0 <= q0 <= ax,
            ax <= 0x8000_0000,
            ay >= 1,
            0 <= ax - ay * q0 < ay,
    ;
    assert(-0x8000_0000 <= y * q <= 0x8000_0000 + 0x8000_0000) by (nonlinear_arith)
        requires
            q == q0 || q == -q0,
            y == ay || y == -ay,
            0 <= ay * q0 <= ax,
            ax <= 0x8000_0000,
            ay >= 1,
    ;
    let r: i64 = x - y * q;
    assert(-0x8000_0000 < r < 0x8000_0000) by (nonlinear_arith)
        requires
            r == x - y * q,
            q == q0 || q == -q0,
            ((x < 0) != (y < 0)) ==> q == -q0,
            ((x < 0) == (y < 0)) ==> q == q0,
            x == ax || x == -ax,
            x < 0 ==> x == -ax,
            x >= 0 ==> x == ax,
            y < 0 ==> y == -ay,
            y >= 0 ==> y == ay,
            0 <= ax - ay * q0 < ay,
            ay <= 0x8000_0000,
    ;
    (q as i32, r as i32)
}

/// Applies an operator of a term.
fn apply_op(t: Token, a: i32, b: i32) -> (res: i32)
    requires
        is_term_op(t),
        !op_fails(t, a, b),
    ensures
        res == op_value(t, a, b),
{
    match t {
        Token::Mal => ((a as i64) * (b as i64)) as i32,
        Token::Geteilt => divide(a, b).0,
        Token::Modulo => divide(a, b).1,
        Token::Und => a & b,
        Token::Oder => a | b,
        Token::Xor => a ^ b,
        Token::Shl => a << (b as u32),
        Token::Shr => a >> (b as u32),
        _ => a,
    }
}

/// Evaluates an expression from a position: a sum of terms, each with a sign
/// `+` or `-`, or `~` for the complement; the first term may go without one.
/// The result holds the value, the position after the expression and the
/// error text; after an error the value is 0.
pub fn execIExpression(
    s: &[u8],
    pos: usize,
    b: &[u8; 10],
    bitpos: i8,
    pb: &[i8; 10],
    err: Option<String>,
) -> (res: Evaluated)
    requires
        ascii_text(s@),
        pos <= s@.len(),
        2 * s@.len() + 4 < usize::MAX,
        !i_expression(s@, pos as int, b@, bitpos, pb@, err_view(err)).overflow,
    ensures
        evaluated_as(res, pos as int, i_expression(s@, pos as int, b@, bitpos, pb@, err_view(err))),
        res.pos <= pos_bound(s@.len() as int, pos as int),
    decreases rest_len(s@, pos as int), 4int,
{
    let (t, _n, _q) = nextToken(s, pos);
    if t == Token::Plus || t == Token::Minus || t == Token::Nicht {
        return expression_rest(s, pos, 0, b, bitpos, pb, err);
    }
    let r = execITerm(s, pos, b, bitpos, pb, err);
    if r.err.is_some() {
        return Evaluated { value: 0, pos: r.pos, err: r.err };
    }
    expression_rest(s, r.pos, r.value, b, bitpos, pb, r.err)
}

/// The further terms of an expression, added to the value so far.
fn expression_rest(
    s: &[u8],
    pos: usize,
    acc: i32,
    b: &[u8; 10],
    bitpos: i8,
    pb: &[i8; 10],
    err: Option<String>,
) -> (res: Evaluated)
    requires
        ascii_text(s@),
        pos <= 2 * s@.len() + 2,
        2 * s@.len() + 4 < usize::MAX,
        !i_expression_rest(s@, pos as int, acc, b@, bitpos, pb@, err_view(err)).overflow,
    ensures
        evaluated_as(
            res,
            pos as int,
            i_expression_rest(s@, pos as int, acc, b@, bitpos, pb@, err_view(err)),
        ),
        res.pos <= pos_bound(s@.len() as int, pos as int),
    decreases rest_len(s@, pos as int), 3int,
{
    let (t, n, _q) = nextToken(s, pos);
    proof {
        lemma_token(s@, pos as int);
    }
    if t == Token::Plus || t == Token::Minus || t == Token::Nicht {
        let r = execITerm(s, pos + n, b, bitpos, pb, err);
        if r.err.is_some() {
            return Evaluated { value: 0, pos: r.pos, err: r.err };
        }
        let v = if t == Token::Minus {
            -r.value
        } else if t == Token::Nicht {
            !r.value
        } else {
            r.value
        };
        expression_rest(s, r.pos, acc + v, b, bitpos, pb, r.err)
    } else {
        Evaluated { value: acc, pos, err }
    }
}

/// Evaluates a term from a position: factors joined by `*`, `/`, `%`, `&`,
/// `|`, `^`, `<<` and `>>`, from left to right.
pub fn execITerm(
    s: &[u8],
    pos: usize,
    b: &[u8; 10],
    bitpos: i8,
    pb: &[i8; 10],
    err: Option<String>,
) -> (res: Evaluated)
    requires
        ascii_text(s@),
        pos <= s@.len(),
        2 * s@.len() + 4 < usize::MAX,
        !i_term(s@, pos as int, b@, bitpos, pb@, err_view(err)).overflow,
    ensures
        evaluated_as(res, pos as int, i_term(s@, pos as int, b@, bitpos, pb@, err_view(err))),
        res.pos <= pos_bound(s@.len() as int, pos as int),
    decreases rest_len(s@, pos as int), 2int,
{
    let f = execIFactor(s, pos, b, bitpos, pb, err);
    if f.err.is_some() {
        return Evaluated { value: 0, pos: f.pos, err: f.err };
    }
    term_rest(s, f.pos, f.value, b, bitpos, pb, f.err)
}

/// The further factors of a term, applied to the value so far.
fn term_rest(
    s: &[u8],
    pos: usize,
    acc: i32,
    b: &[u8; 10],
    bitpos: i8,
    pb: &[i8; 10],
    err: Option<String>,
) -> (res: Evaluated)
    requires
        ascii_text(s@),
        pos <= 2 * s@.len() + 2,
        2 * s@.len() + 4 < usize::MAX,
        !i_term_rest(s@, pos as int, acc, b@, bitpos, pb@, err_view(err)).overflow,
    ensures
        evaluated_as(res, pos as int, i_term_rest(s@, pos as int, acc, b@, bitpos, pb@, err_view(err))),
        res.pos <= pos_bound(s@.len() as int, pos as int),
    decreases rest_len(s@, pos as int), 1int,
{
    let (t, n, _q) = nextToken(s, pos);
    proof {
        lemma_token(s@, pos as int);
    }
    if t == Token::Mal || t == Token::Geteilt || t == Token::Modulo || t == Token::Und || t
        == Token::Oder || t == Token::Xor || t == Token::Shl || t == Token::Shr {
        let f = execIFactor(s, pos + n, b, bitpos, pb, err);
        if f.err.is_some() {
            return Evaluated { value: 0, pos: f.pos, err: f.err };
        }
        let v = apply_op(t, acc, f.value);
        term_rest(s, f.pos, v, b, bitpos, pb, f.err)
    } else {
        Evaluated { value: acc, pos, err }
    }
}

/// Evaluates a factor from a position: a byte `B0` to `B9` of the value or
/// `P0` to `P9` of the parameters, the bit position `BP`, a hexadecimal or
/// decimal number, an expression in brackets, or the complement `~` of a
/// factor; anything else is an error. The bracket tests its expression's
/// error the wrong way round, a known defect kept here as it stands: where
/// the expression has no error the bracket gives 0 and leaves the closing
/// bracket unread.
#[verifier::rlimit(40)]
pub fn execIFactor(
    s: &[u8],
    pos: usize,
    b: &[u8; 10],
    bitpos: i8,
    pb: &[i8; 10],
    err: Option<String>,
) -> (res: Evaluated)
    requires
        ascii_text(s@),
        pos <= s@.len(),
        2 * s@.len() + 4 < usize::MAX,
        !i_factor(s@, pos as int, b@, bitpos, pb@, err_view(err)).overflow,
    ensures
        evaluated_as(res, pos as int, i_factor(s@, pos as int, b@, bitpos, pb@, err_view(err))),
        pos < res.pos <= pos_bound(s@.len() as int, pos as int),
    decreases rest_len(s@, pos as int), 0int,
{
    let (t, n, q) = nextToken(s, pos);
    proof {
        lemma_token(s@, pos as int);
    }
    let item = get_byte(s, q);
    match t {
        Token::Byte(i) => Evaluated { value: (b[i as usize] as i32) & 0xff, pos: pos + n, err },
        Token::BitPos => Evaluated { value: (bitpos as i32) & 0xff, pos: pos + n, err },
        Token::PByte(i) => Evaluated { value: (pb[i as usize] as i32) & 0xff, pos: pos + n, err },
        Token::Hex => {
            let (value, end) = read_hex(s, pos + n);
            Evaluated { value, pos: end, err }
        },
        Token::Digit => {
            let (value, end) = read_decimal(s, pos + n, item);
            Evaluated { value, pos: end, err }
        },
        Token::KAuf => {
            let e = execIExpression(s, pos + n, b, bitpos, pb, err);
            if e.err.is_none() {
                return Evaluated { value: 0, pos: e.pos, err: e.err };
            }
            let (t2, n2, q2) = nextToken(s, e.pos);
            if t2 != Token::KZu {
                Evaluated { value: 0, pos: e.pos + n2, err: Some(bracket_error(get_byte(s, q2))) }
            } else {
                Evaluated { value: e.value, pos: e.pos + n2, err: e.err }
            }
        },
        Token::Nicht => {
            let f = execIFactor(s, pos + n, b, bitpos, pb, err);
            Evaluated { value: !f.value, pos: f.pos, err: f.err }
        },
        _ => Evaluated { value: 0, pos: pos + n, err: Some(factor_error(item)) },
    }
}

} // verus!
