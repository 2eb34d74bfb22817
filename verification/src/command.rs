use vstd::prelude::*;
use vstd::utf8::{decode_utf8, valid_utf8};

use crate::access_mode::AccessMode;
use crate::data_type::DataType;
use crate::error::Error;
use crate::parameter::Parameter;
use crate::types::circuit_time::{circuit_time_of_bytes, circuit_times_bytes, week_days, CircuitTimes};
use crate::types::date_time::{
    bcd_encodable, date_time_bytes, decode_date, decode_date_time, invalid_date_message,
    invalid_date_time_message, valid_date_time, valid_ymd, weekday_from_monday, Date, DateTime,
};
use vstd::utf8::encode_utf8;
use crate::types::device_id::{device_id_of_bytes, DeviceId, DeviceIdF0};
use crate::bytes::be_u16;
use crate::types::error::{error_bytes, Error as ErrorRecord};
use crate::value::{signed_decimal, Value};

verus! {

// ---------------------------------------------------------------------------
// Numbers in bytes
// ---------------------------------------------------------------------------

/// Bytes that are all 0xFF, which the controller sends for "no value".
pub open spec fn all_ff(s: Seq<u8>) -> bool {
    forall|i: int| 0 <= i < s.len() ==> s[i] == 0xff
}

/// The number that bytes encode, the first byte highest.
pub open spec fn be_value(s: Seq<u8>) -> nat
    decreases s.len(),
{
    if s.len() == 0 {
        0
    } else {
        be_value(s.drop_last()) * 256 + s.last() as nat
    }
}

/// The last `k` bytes in reverse order (all of them where there are fewer).
pub open spec fn reversed_tail(s: Seq<u8>, k: int) -> Seq<u8> {
    let n = if k < s.len() {
        k
    } else {
        s.len() as int
    };
    Seq::new(n as nat, |j: int| s[s.len() - 1 - j])
}

/// Whether bit `k` of a byte is set, bit 0 being the highest.
pub open spec fn bit_set(b: u8, k: int) -> bool {
    (b & (0x80u8 >> (k as u8))) != 0
}

/// The number that `len` bits starting at bit `start` form, the first bit
/// highest; bits are counted from the highest bit of the first byte.
pub open spec fn bits_value(s: Seq<u8>, start: int, len: nat) -> nat
    decreases len,
{
    if len == 0 {
        0
    } else {
        let p = start + len - 1;
        bits_value(s, start, (len - 1) as nat) * 2 + if bit_set(s[p / 8], p % 8) {
            1nat
        } else {
            0nat
        }
    }
}

/// Bit `q` of a byte sequence, counting from the highest bit of the first
/// byte: the byte `q / 8` shifted right by `7 - q % 8`, its lowest bit.
pub open spec fn stream_bit(s: Seq<u8>, q: int) -> nat {
    ((s[q / 8] >> ((7 - q % 8) as u8)) & 1u8) as nat
}

proof fn lemma_bit_set_shift(b: u8, k: int)
    requires
        0 <= k < 8,
    ensures
        (if bit_set(b, k) {
            1nat
        } else {
            0nat
        }) == ((b >> ((7 - k) as u8)) & 1u8) as nat,
{
    let kk = k as u8;
    let m = (7 - k) as u8;
    assert(kk < 8 && m + kk == 7);
    assert(((b & (0x80u8 >> kk)) != 0) == (((b >> m) & 1u8) == 1u8)) by (bit_vector)
        requires
            kk < 8,
            m + kk == 7,
    ;
    assert(((b >> m) & 1u8) <= 1u8) by (bit_vector);
}

/// A bit field read from bytes: bits are counted from the highest bit of the
/// first byte, and the field's first bit is its highest. Bit `j` of the value,
/// counted from its lowest bit, is stream bit `p + l - 1 - j`, and the value
/// has no bits beyond the field's `l`.
pub proof fn lemma_bit_field(s: Seq<u8>, p: int, l: nat, j: nat)
    requires
        0 <= p,
        p + l <= 8 * s.len(),
        j < l,
    ensures
        bits_value(s, p, l) < vstd::arithmetic::power2::pow2(l),
        (bits_value(s, p, l) / vstd::arithmetic::power2::pow2(j)) % 2 == stream_bit(s, p + l - 1 - j),
    decreases l,
{
    let q = p + l - 1;
    let prev = bits_value(s, p, (l - 1) as nat);
    let c: nat = if bit_set(s[q / 8], q % 8) {
        1
    } else {
        0
    };
    assert(bits_value(s, p, l) == prev * 2 + c);
    lemma_bit_set_shift(s[q / 8], q % 8);
    vstd::arithmetic::power2::lemma_pow2_unfold(l);
    if l > 1 {
        lemma_bit_field(s, p, (l - 1) as nat, 0);
    } else {
        assert(prev == 0);
        vstd::arithmetic::power2::lemma2_to64();
    }
    if j == 0 {
        vstd::arithmetic::power2::lemma2_to64();
        assert((prev * 2 + c) % 2 == c) by (nonlinear_arith)
            requires
                c <= 1,
        ;
    } else {
        lemma_bit_field(s, p, (l - 1) as nat, (j - 1) as nat);
        vstd::arithmetic::power2::lemma_pow2_unfold(j);
        vstd::arithmetic::power2::lemma_pow2_pos((j - 1) as nat);
        let x = (prev * 2 + c) as int;
        assert(x / 2 == prev) by {
            vstd::arithmetic::div_mod::lemma_div_multiples_vanish_fancy(prev as int, c as int, 2);
        }
        vstd::arithmetic::div_mod::lemma_div_denominator(x, 2, vstd::arithmetic::power2::pow2(
            (j - 1) as nat,
        ) as int);
    }
}

/// The value of the low 32 bits of a number read as a signed 32-bit integer.
pub open spec fn wrap_i32(v: int) -> int {
    let m = v % 0x1_0000_0000;
    if m < 0x8000_0000 {
        m
    } else {
        m - 0x1_0000_0000
    }
}

/// A number clamped to a range.
pub open spec fn clamp(v: int, lo: int, hi: int) -> int {
    if v < lo {
        lo
    } else if v > hi {
        hi
    } else {
        v
    }
}

/// The bytes before the first zero byte, given its position.
pub open spec fn zero_terminated_at(s: Seq<u8>, n: int) -> bool {
    0 <= n <= s.len() && (forall|i: int| 0 <= i < n ==> s[i] != 0) && (n == s.len() || s[n] == 0)
}

/// A number of two's complement bits as an `i32`: only the low 32 bits count.
fn wrap_u32_to_i32(x: u64) -> (res: i32)
    requires
        x < 0x1_0000_0000,
    ensures
        res == wrap_i32(x as int),
{
    if x < 0x8000_0000 {
        x as i32
    } else {
        (x as i64 - 0x1_0000_0000) as i32
    }
}

fn clamp_i64(v: i64, lo: i64, hi: i64) -> (res: i64)
    requires
        lo <= hi,
    ensures
        res == clamp(v as int, lo as int, hi as int),
{
    if v < lo {
        lo
    } else if v > hi {
        hi
    } else {
        v
    }
}

proof fn lemma_bits_step(x: int, b: int)
    requires
        x >= 0,
        0 <= b <= 1,
    ensures
        (x * 2 + b) % 0x1_0000_0000 == ((x % 0x1_0000_0000) * 2 + b) % 0x1_0000_0000,
{
    vstd::arithmetic::div_mod::lemma_mul_mod_noop_left(x, 2, 0x1_0000_0000);
    vstd::arithmetic::div_mod::lemma_add_mod_noop(x * 2, b, 0x1_0000_0000);
    vstd::arithmetic::div_mod::lemma_add_mod_noop((x % 0x1_0000_0000) * 2, b, 0x1_0000_0000);
    vstd::arithmetic::div_mod::lemma_mod_twice((x % 0x1_0000_0000) * 2, 0x1_0000_0000);
}

/// Limits on what four bytes and fewer can encode.
pub open spec fn pow256(k: int) -> int {
    if k <= 0 {
        1
    } else if k == 1 {
        0x100
    } else if k == 2 {
        0x1_0000
    } else if k == 3 {
        0x100_0000
    } else {
        0x1_0000_0000
    }
}

proof fn lemma_be_value_take(s: Seq<u8>, i: int)
    requires
        0 <= i < s.len(),
    ensures
        be_value(s.take(i + 1)) == be_value(s.take(i)) * 256 + s[i] as nat,
{
    assert(s.take(i + 1).drop_last() =~= s.take(i));
}

proof fn lemma_be_value_reversed(s: Seq<u8>, i: int)
    requires
        0 <= i < s.len(),
    ensures
        be_value(reversed_tail(s, i + 1)) == be_value(reversed_tail(s, i)) * 256 + s[s.len() - 1
            - i] as nat,
{
    assert(reversed_tail(s, i + 1).drop_last() =~= reversed_tail(s, i));
}

/// The `k` bytes of a number below 256 to the power `k`, the lowest byte first.
pub open spec fn le_bytes(m: int, k: int) -> Seq<u8> {
    Seq::new(k as nat, |i: int| ((m / pow256(i)) % 256) as u8)
}

/// The `k` bytes of a number below 256 to the power `k`, the highest byte first.
pub open spec fn be_bytes(m: int, k: int) -> Seq<u8> {
    Seq::new(k as nat, |i: int| ((m / pow256(k - 1 - i)) % 256) as u8)
}

/// The bytes that a number is written as with a layout: the number modulo
/// 256 to the power of the layout's size, in the layout's byte order.
pub open spec fn int_bytes(n: int, p: Parameter) -> Seq<u8> {
    let k = p.int_size();
    let m = n % pow256(k);
    if p.is_high_byte_first() {
        be_bytes(m, k)
    } else {
        le_bytes(m, k)
    }
}

/// The remainder of a number divided by `m`, as a natural number.
fn euclid_mod(n: i64, m: u64) -> (res: u64)
    requires
        0 < m <= 0x1_0000_0000,
    ensures
        res == n as int % m as int,
        res < m,
{
    if n >= 0 {
        (n as u64) % m
    } else {
        let a = (-(n + 1)) as u64;
        let r = a % m;
        proof {
            let q = a as int / m as int;
            vstd::arithmetic::div_mod::lemma_fundamental_div_mod(a as int, m as int);
            assert(n as int == (-q - 1) * m as int + (m - 1 - r)) by (nonlinear_arith)
                requires
                    a as int == m as int * q + r as int,
                    a as int == -(n as int + 1),
            ;
            vstd::arithmetic::div_mod::lemma_fundamental_div_mod_converse(
                n as int,
                m as int,
                -q - 1,
                (m - 1 - r) as int,
            );
        }
        m - 1 - r
    }
}

/// Writes a number with a layout of a number: little-endian or big-endian,
/// in one, two or four bytes, keeping its low bits.
pub fn encode_int(n: i64, parameter: Parameter) -> (res: Vec<u8>)
    requires
        parameter.is_integer(),
    ensures
        res@ == int_bytes(n as int, parameter),
{
    let k: u64 = match parameter {
        Parameter::Byte | Parameter::SByte => 1,
        Parameter::Int | Parameter::SInt | Parameter::IntHighByteFirst | Parameter::SIntHighByteFirst => 2,
        _ => 4,
    };
    let modulus: u64 = if k == 1 {
        0x100
    } else if k == 2 {
        0x1_0000
    } else {
        0x1_0000_0000
    };
    assert(modulus == pow256(parameter.int_size()));
    let m = euclid_mod(n, modulus);
    let high_first = match parameter {
        Parameter::IntHighByteFirst
        | Parameter::Int4HighByteFirst
        | Parameter::SIntHighByteFirst
        | Parameter::SInt4HighByteFirst => true,
        _ => false,
    };
    let b0 = (m % 256) as u8;
    let b1 = ((m / 0x100) % 256) as u8;
    let b2 = ((m / 0x1_0000) % 256) as u8;
    let b3 = ((m / 0x100_0000) % 256) as u8;
    let res = if k == 1 {
        vec![b0]
    } else if k == 2 {
        if high_first {
            vec![b1, b0]
        } else {
            vec![b0, b1]
        }
    } else {
        if high_first {
            vec![b3, b2, b1, b0]
        } else {
            vec![b0, b1, b2, b3]
        }
    };
    assert(res@ =~= int_bytes(n as int, parameter));
    res
}

// ---------------------------------------------------------------------------
// Commands
// ---------------------------------------------------------------------------

/// An uppercase hexadecimal digit.
pub open spec fn upper_hex_digit(d: int) -> char {
    if d < 10 {
        (48 + d) as char
    } else {
        (55 + d) as char
    }
}

/// A 16-bit number as four uppercase hexadecimal digits, as `{:04X}` writes it.
pub open spec fn hex4(n: u16) -> Seq<char> {
    seq![
        upper_hex_digit(n as int / 4096),
        upper_hex_digit((n as int / 256) % 16),
        upper_hex_digit((n as int / 16) % 16),
        upper_hex_digit(n as int % 16),
    ]
}

/// The message of a command that cannot be written.
pub open spec fn write_mode_message(addr: u16) -> Seq<char> {
    "Address 0x"@ + hex4(addr) + " does not support writing."@
}

/// The message of a command that cannot be read.
pub open spec fn read_mode_message(addr: u16) -> Seq<char> {
    "Address 0x"@ + hex4(addr) + " does not support reading."@
}

/// The message of a number below a command's minimum.
pub open spec fn below_minimum_message(n: i64, min: i64) -> Seq<char> {
    signed_decimal(n as int) + " is less than minimum "@ + signed_decimal(min as int)
}

/// The message of a number above a command's maximum.
pub open spec fn above_maximum_message(n: i64, max: i64) -> Seq<char> {
    signed_decimal(n as int) + " is greater than maximum "@ + signed_decimal(max as int)
}

/// Formats `Address 0x{addr:04X} does not support writing.` with `format!`.
#[verifier::external_body]
fn format_write_mode(addr: u16) -> (res: String)
    ensures
        res@ == write_mode_message(addr),
{
    format!("Address 0x{:04X} does not support writing.", addr)
}

/// Formats `Address 0x{addr:04X} does not support reading.` with `format!`.
#[verifier::external_body]
fn format_read_mode(addr: u16) -> (res: String)
    ensures
        res@ == read_mode_message(addr),
{
    format!("Address 0x{:04X} does not support reading.", addr)
}

/// Formats `{n} is less than minimum {min}` with `format!`.
#[verifier::external_body]
fn format_below_minimum(n: i64, min: i64) -> (res: String)
    ensures
        res@ == below_minimum_message(n, min),
{
    format!("{} is less than minimum {}", n, min)
}

/// Formats `{n} is greater than maximum {max}` with `format!`.
#[verifier::external_body]
fn format_above_maximum(n: i64, max: i64) -> (res: String)
    ensures
        res@ == above_maximum_message(n, max),
{
    format!("{} is greater than maximum {}", n, max)
}

/// Formats `expected {data_type:?}, got {input:?}` with `format!`. The text
/// depends on the `Debug` output of the value, which no clause states.
#[verifier::external_body]
fn format_mismatch(data_type: DataType, input: &Value) -> (res: String) {
    format!("expected {:?}, got {:?}", data_type, input)
}

/// The message of a value whose byte count does not fit its data type.
pub open spec fn length_message(n: int) -> Seq<char> {
    if n == 2 {
        "array length is not 2"@
    } else if n == 8 {
        "array length is not 8"@
    } else if n == 9 {
        "array length is not 9"@
    } else if n == 10 {
        "array length is not 10"@
    } else {
        "array length is not 56"@
    }
}

fn length_error(n: usize) -> (res: Error)
    requires
        n == 2 || n == 8 || n == 9 || n == 10 || n == 56,
    ensures
        res matches Error::InvalidFormat(m) && m@ == length_message(n as int),
{
    let m = if n == 2 {
        String::from_str("array length is not 2")
    } else if n == 8 {
        String::from_str("array length is not 8")
    } else if n == 9 {
        String::from_str("array length is not 9")
    } else if n == 10 {
        String::from_str("array length is not 10")
    } else {
        String::from_str("array length is not 56")
    };
    Error::InvalidFormat(m)
}

/// Reads a string from bytes with `String::from_utf8`: there is one exactly
/// where the bytes are valid UTF-8, and it holds the characters that they encode.
#[verifier::external_body]
fn string_from_utf8(bytes: &[u8]) -> (res: Option<String>)
    ensures
        res is Some <==> valid_utf8(bytes@),
        res matches Some(s) ==> s@ == decode_utf8(bytes@),
{
    String::from_utf8(bytes.to_vec()).ok()
}

/// A command which can be executed on an Optolink connection: where its
/// value lies in the controller's memory and how its bytes are read.
///
/// Bounds, unit conversions and enumerations of a command, which involve
/// floating-point numbers, are kept by the caller.
#[derive(Debug, Clone, Copy)]
pub struct Command {
    pub addr: u16,
    pub mode: AccessMode,
    pub data_type: DataType,
    pub parameter: Parameter,
    pub block_count: Option<usize>,
    pub block_len: usize,
    pub byte_len: usize,
    pub byte_pos: usize,
    pub bit_pos: usize,
    pub bit_len: Option<usize>,
    pub unit: Option<&'static str>,
}

impl Command {
    /// The combinations of data type and layout that have a meaning, and bit
    /// ranges that lie within `n` bytes.
    pub open spec fn readable_from(self, n: int) -> bool {
        self.data_type.is_numeric() ==> {
            &&& (self.data_type == DataType::Byte ==> (self.parameter == Parameter::Byte
                || self.parameter == Parameter::SByte))
            &&& self.parameter.is_integer()
            &&& (self.bit_len matches Some(l) ==> self.bit_pos + l <= 8 * n && self.bit_pos + l
                <= usize::MAX)
        }
    }

    /// The unsigned 32-bit pattern of the number in the bytes: the selected
    /// bits, or up to four bytes, the first ones for layouts with the high
    /// byte first and the last ones otherwise.
    pub open spec fn raw_pattern(self, bytes: Seq<u8>) -> int {
        match self.bit_len {
            Some(l) => (bits_value(bytes, self.bit_pos as int, l as nat) % 0x1_0000_0000) as int,
            None => if self.parameter.is_high_byte_first() {
                be_value(bytes.take(if bytes.len() < 4 { bytes.len() as int } else { 4 })) as int
            } else {
                be_value(reversed_tail(bytes, 4)) as int
            },
        }
    }

    /// The number in the bytes as a signed 32-bit integer.
    pub open spec fn raw_int(self, bytes: Seq<u8>) -> int {
        wrap_i32(self.raw_pattern(bytes))
    }

    /// The value that a numeric data type reads from the bytes.
    pub open spec fn numeric_value(self, bytes: Seq<u8>) -> (int, bool) {
        let n = self.raw_int(bytes);
        if self.data_type == DataType::Byte {
            (self.raw_pattern(bytes) % 256, true)
        } else if self.data_type == DataType::Int {
            (n, true)
        } else if self.parameter == Parameter::SByte {
            (clamp(n, -128, 127), false)
        } else if self.parameter == Parameter::SInt || self.parameter
            == Parameter::SIntHighByteFirst {
            (clamp(n, -32768, 32767), false)
        } else {
            (n, false)
        }
    }

    /// What reading a value from bytes gives: `Empty` for bytes that are all
    /// 0xFF, otherwise the value of the data type, or the error for bytes of
    /// the wrong count or content.
    pub open spec fn parsed(self, bytes: Seq<u8>, res: Result<Value, Error>) -> bool {
        if all_ff(bytes) {
            res matches Ok(Value::Empty)
        } else {
            match self.data_type {
                DataType::DeviceId => if bytes.len() != 8 {
                    res matches Err(Error::InvalidFormat(m)) && m@ == length_message(8)
                } else {
                    res == Ok::<Value, Error>(Value::DeviceId(device_id_of_bytes(bytes)))
                },
                DataType::DeviceIdF0 => if bytes.len() != 2 {
                    res matches Err(Error::InvalidFormat(m)) && m@ == length_message(2)
                } else {
                    res == Ok::<Value, Error>(
                        Value::DeviceIdF0(DeviceIdF0(be_u16(bytes[0], bytes[1]))),
                    )
                },
                DataType::Date => if bytes.len() != 8 {
                    res matches Err(Error::InvalidFormat(m)) && m@ == length_message(8)
                } else {
                    let d = decode_date(bytes);
                    if valid_ymd(d.year, d.month, d.day) {
                        res matches Ok(Value::Date(r)) && r@ == d
                    } else {
                        res matches Err(Error::InvalidFormat(m)) && m@ == invalid_date_message(
                            d.year as u16,
                            d.month as u8,
                            d.day as u8,
                        )
                    }
                },
                DataType::DateTime => if bytes.len() != 8 {
                    res matches Err(Error::InvalidFormat(m)) && m@ == length_message(8)
                } else {
                    let t = decode_date_time(bytes);
                    if valid_date_time(t) {
                        res matches Ok(Value::DateTime(r)) && r@ == t
                    } else {
                        res matches Err(Error::InvalidFormat(m)) && m@ == invalid_date_time_message(
                            t.year as u16,
                            t.month as u8,
                            t.day as u8,
                            t.hour as u8,
                            t.minute as u8,
                            t.second as u8,
                        )
                    }
                },
                DataType::CircuitTimes => if bytes.len() != 56 {
                    res matches Err(Error::InvalidFormat(m)) && m@ == length_message(56)
                } else {
                    res matches Ok(Value::CircuitTimes(c)) && forall|d: int|
                        0 <= d < 7 ==> (#[trigger] week_days(*c)[d]).0@ == circuit_time_of_bytes(
                            bytes.subrange(8 * d, 8 * d + 8),
                        )
                },
                DataType::ErrorIndex => if bytes.len() != 10 {
                    res matches Err(Error::InvalidFormat(m)) && m@ == length_message(10)
                } else {
                    res matches Ok(Value::ByteArray(v)) && exists|n: int|
                        zero_terminated_at(bytes, n) && v@ == bytes.take(n)
                },
                DataType::Error => if bytes.len() != 9 {
                    res matches Err(Error::InvalidFormat(m)) && m@ == length_message(9)
                } else {
                    let index = bytes[0];
                    let t = decode_date_time(bytes.subrange(1, 9));
                    if valid_date_time(t) {
                        res matches Ok(Value::Error(e)) && e.index == index && (e.time matches Some(
                            d,
                        ) && d@ == t)
                    } else if index == 0 {
                        res matches Ok(Value::Error(e)) && e.index == 0 && e.time is None
                    } else {
                        res matches Err(Error::InvalidFormat(_))
                    }
                },
                DataType::String => exists|n: int|
                    zero_terminated_at(bytes, n) && if valid_utf8(bytes.take(n)) {
                        res matches Ok(Value::String(s)) && s@ == decode_utf8(bytes.take(n))
                    } else {
                        res matches Err(Error::Utf8(v)) && v@ == bytes.take(n)
                    },
                DataType::ByteArray => res matches Ok(Value::ByteArray(v)) && v@ == bytes,
                _ => {
                    let (n, is_int) = self.numeric_value(bytes);
                    if is_int {
                        res matches Ok(Value::Int(i)) && i == n
                    } else {
                        res matches Ok(Value::Number(i)) && i == n
                    }
                },
            }
        }
    }

    /// Buffers that hold the command's bytes, in blocks that can each be
    /// read: where the layout has no reading, every block is all 0xFF.
    pub open spec fn layout_fits(self, buf: Seq<u8>) -> bool {
        &&& self.byte_pos + self.byte_len <= buf.len()
        &&& match self.block_count {
            Some(c) => {
                &&& c > 0
                &&& c * (self.block_len / c) <= self.byte_len
                &&& (self.readable_from((self.block_len / c) as int) || forall|i: int|
                    0 <= i < c ==> all_ff(#[trigger] self.block(buf, i)))
            },
            None => self.readable_from(self.byte_len as int) || all_ff(self.value_bytes(buf)),
        }
    }

    /// The bytes of the command within the buffer read at its address.
    pub open spec fn value_bytes(self, buf: Seq<u8>) -> Seq<u8> {
        buf.subrange(self.byte_pos as int, self.byte_pos + self.byte_len)
    }

    /// Block `i` of the command's bytes, for commands with several blocks.
    pub open spec fn block(self, buf: Seq<u8>, i: int) -> Seq<u8> {
        let bl = self.block_len / self.block_count->0;
        self.value_bytes(buf).subrange(i * bl, (i + 1) * bl)
    }

    /// Block `i` holds a value that can be read.
    pub open spec fn block_readable(self, buf: Seq<u8>, i: int) -> bool {
        exists|v: Value| #[trigger] self.parsed(self.block(buf, i), Ok(v))
    }

    /// Get the command's access mode.
    pub fn access_mode(&self) -> (res: AccessMode)
        ensures
            res == self.mode,
    {
        self.mode
    }

    /// The address of the command's value.
    pub fn addr(&self) -> (res: u16)
        ensures
            res == self.addr,
    {
        self.addr
    }

    /// The number of bytes read at the command's address.
    pub fn block_len(&self) -> (res: usize)
        ensures
            res == self.block_len,
    {
        self.block_len
    }

    fn read_bits(&self, bytes: &[u8], bit_len: usize) -> (res: u64)
        requires
            self.bit_pos + bit_len <= 8 * bytes@.len(),
            self.bit_pos + bit_len <= usize::MAX,
        ensures
            res < 0x1_0000_0000,
            res == bits_value(bytes@, self.bit_pos as int, bit_len as nat) % 0x1_0000_0000,
    {
        let mut n: u64 = 0;
        let mut i: usize = 0;
        while i < bit_len
            invariant
                i <= bit_len,
                self.bit_pos + bit_len <= 8 * bytes@.len(),
                self.bit_pos + bit_len <= usize::MAX,
                n < 0x1_0000_0000,
                n == bits_value(bytes@, self.bit_pos as int, i as nat) % 0x1_0000_0000,
            decreases bit_len - i,
        {
            let bit_pos = self.bit_pos + i;

            let byte = bit_pos / 8;
            let bit = bit_pos % 8;
            let bit_mask: u8 = 0b10000000u8 >> (bit as u8);

            let b: u64 = if (bytes[byte] & bit_mask) != 0 {
                1
            } else {
                0
            };
            proof {
                lemma_bits_step(bits_value(bytes@, self.bit_pos as int, i as nat) as int, b as int);
            }
            n = (n * 2 + b) % 0x1_0000_0000;
            i = i + 1;
        }
        n
    }

    fn read_bytes_high_first(bytes: &[u8]) -> (res: u64)
        ensures
            res < 0x1_0000_0000,
            res == be_value(bytes@.take(if bytes@.len() < 4 { bytes@.len() as int } else { 4 })),
    {
        let k: usize = if bytes.len() < 4 {
            bytes.len()
        } else {
            4
        };
        let mut n: u64 = 0;
        let mut i: usize = 0;
        assert(bytes@.take(0) =~= Seq::<u8>::empty());
        while i < k
            invariant
                i <= k,
                k <= 4,
                k <= bytes@.len(),
                n < pow256(i as int),
                n == be_value(bytes@.take(i as int)),
            decreases k - i,
        {
            proof {
                lemma_be_value_take(bytes@, i as int);
            }
            n = n * 256 + bytes[i] as u64;
            i = i + 1;
        }
        n
    }

    fn read_bytes_low_first(bytes: &[u8]) -> (res: u64)
        ensures
            res < 0x1_0000_0000,
            res == be_value(reversed_tail(bytes@, 4)),
    {
        let len = bytes.len();
        let k: usize = if len < 4 {
            len
        } else {
            4
        };
        let mut n: u64 = 0;
        let mut i: usize = 0;
        assert(reversed_tail(bytes@, 0) =~= Seq::<u8>::empty());
        while i < k
            invariant
                i <= k,
                k <= 4,
                k <= len,
                len == bytes@.len(),
                n < pow256(i as int),
                n == be_value(reversed_tail(bytes@, i as int)),
            decreases k - i,
        {
            proof {
                lemma_be_value_reversed(bytes@, i as int);
            }
            n = n * 256 + bytes[len - 1 - i] as u64;
            i = i + 1;
        }
        assert(reversed_tail(bytes@, k as int) =~= reversed_tail(bytes@, 4));
        n
    }

    /// Reads the value that the bytes hold for this command.
    pub fn parse_value(&self, bytes: &[u8]) -> (res: Result<Value, Error>)
        requires
            !all_ff(bytes@) ==> self.readable_from(bytes@.len() as int),
        ensures
            self.parsed(bytes@, res),
    {
        let mut all: bool = true;
        let mut i: usize = 0;
        while i < bytes.len()
            invariant
                i <= bytes@.len(),
                all == (forall|j: int| 0 <= j < i ==> bytes@[j] == 0xff),
            decreases bytes@.len() - i,
        {
            if bytes[i] != 0xff {
                all = false;
            }
            i = i + 1;
        }
        if all {
            return Ok(Value::Empty);
        }
        match self.data_type {
            DataType::DeviceId => {
                if bytes.len() != 8 {
                    return Err(length_error(8));
                }
                let b: [u8; 8] = [
                    bytes[0],
                    bytes[1],
                    bytes[2],
                    bytes[3],
                    bytes[4],
                    bytes[5],
                    bytes[6],
                    bytes[7],
                ];
                assert(b@ =~= bytes@);
                Ok(Value::DeviceId(DeviceId::from_bytes(&b)))
            },
            DataType::DeviceIdF0 => {
                if bytes.len() != 2 {
                    return Err(length_error(2));
                }
                let b: [u8; 2] = [bytes[0], bytes[1]];
                Ok(Value::DeviceIdF0(DeviceIdF0::from_bytes(&b)))
            },
            DataType::Date => {
                if bytes.len() != 8 {
                    return Err(length_error(8));
                }
                let b: [u8; 8] = [
                    bytes[0],
                    bytes[1],
                    bytes[2],
                    bytes[3],
                    bytes[4],
                    bytes[5],
                    bytes[6],
                    bytes[7],
                ];
                assert(b@ =~= bytes@);
                match Date::from_bytes(&b) {
                    Ok(d) => Ok(Value::Date(d)),
                    Err(e) => Err(e),
                }
            },
            DataType::DateTime => {
                if bytes.len() != 8 {
                    return Err(length_error(8));
                }
                let b: [u8; 8] = [
                    bytes[0],
                    bytes[1],
                    bytes[2],
                    bytes[3],
                    bytes[4],
                    bytes[5],
                    bytes[6],
                    bytes[7],
                ];
                assert(b@ =~= bytes@);
                match DateTime::from_bytes(&b) {
                    Ok(t) => Ok(Value::DateTime(t)),
                    Err(e) => Err(e),
                }
            },
            DataType::CircuitTimes => {
                if bytes.len() != 56 {
                    return Err(length_error(56));
                }
                Ok(Value::CircuitTimes(Box::new(CircuitTimes::from_bytes(bytes))))
            },
            DataType::ErrorIndex => {
                if bytes.len() != 10 {
                    return Err(length_error(10));
                }
                let mut errors: Vec<u8> = Vec::new();
                let mut k: usize = 0;
                while k < bytes.len() && bytes[k] != 0
                    invariant
                        k <= bytes@.len(),
                        forall|j: int| 0 <= j < k ==> bytes@[j] != 0,
                        errors@ == bytes@.take(k as int),
                    decreases bytes@.len() - k,
                {
                    errors.push(bytes[k]);
                    k = k + 1;
                    assert(errors@ =~= bytes@.take(k as int));
                }
                assert(zero_terminated_at(bytes@, k as int));
                Ok(Value::ByteArray(errors))
            },
            DataType::Error => {
                if bytes.len() != 9 {
                    return Err(length_error(9));
                }
                let b: [u8; 9] = [
                    bytes[0],
                    bytes[1],
                    bytes[2],
                    bytes[3],
                    bytes[4],
                    bytes[5],
                    bytes[6],
                    bytes[7],
                    bytes[8],
                ];
                assert(b@ =~= bytes@);
                match ErrorRecord::from_bytes(&b) {
                    Ok(e) => Ok(Value::Error(e)),
                    Err(e) => Err(e),
                }
            },
            DataType::String => {
                let mut end: usize = 0;
                while end < bytes.len() && bytes[end] != 0
                    invariant
                        end <= bytes@.len(),
                        forall|j: int| 0 <= j < end ==> bytes@[j] != 0,
                    decreases bytes@.len() - end,
                {
                    end = end + 1;
                }
                assert(zero_terminated_at(bytes@, end as int));
                let prefix = &bytes[0..end];
                assert(prefix@ =~= bytes@.take(end as int));
                match string_from_utf8(prefix) {
                    Some(s) => Ok(Value::String(s)),
                    None => Err(Error::Utf8(vstd::slice::slice_to_vec(prefix))),
                }
            },
            DataType::ByteArray => Ok(Value::ByteArray(vstd::slice::slice_to_vec(bytes))),
            _ => {
                let pattern: u64 = match self.bit_len {
                    Some(bit_len) => self.read_bits(bytes, bit_len),
                    None => match self.parameter {
                        Parameter::IntHighByteFirst
                        | Parameter::Int4HighByteFirst
                        | Parameter::SIntHighByteFirst
                        | Parameter::SInt4HighByteFirst => Self::read_bytes_high_first(bytes),
                        _ => Self::read_bytes_low_first(bytes),
                    },
                };
                let n = wrap_u32_to_i32(pattern);
                match self.data_type {
                    DataType::Byte => Ok(Value::Int((pattern % 256) as i64)),
                    DataType::Int => Ok(Value::Int(n as i64)),
                    _ => match self.parameter {
                        Parameter::SByte => Ok(Value::Number(clamp_i64(n as i64, -128, 127))),
                        Parameter::SInt | Parameter::SIntHighByteFirst => Ok(
                            Value::Number(clamp_i64(n as i64, -32768, 32767)),
                        ),
                        _ => Ok(Value::Number(n as i64)),
                    },
                }
            },
        }
    }

    /// Reads the command's value from the buffer read at its address: one
    /// value, or an array of one value per block; the first block that cannot
    /// be read gives the error.
    pub fn parse_response(&self, buf: &[u8]) -> (res: Result<Value, Error>)
        requires
            self.layout_fits(buf@),
        ensures
            self.block_count is None ==> self.parsed(self.value_bytes(buf@), res),
            self.block_count matches Some(c) ==> {
                &&& res is Ok ==> (res matches Ok(Value::Array(vs)) && vs@.len() == c && forall|i: int|
                    0 <= i < c ==> self.parsed(self.block(buf@, i), Ok(#[trigger] vs@[i])))
                &&& res matches Err(e) ==> exists|i: int|
                    0 <= i < c && (forall|j: int| 0 <= j < i ==> #[trigger] self.block_readable(buf@, j))
                        && self.parsed(self.block(buf@, i), Err(e))
            },
    {
        let total = buf.len();
        assert(self.byte_pos + self.byte_len <= total);
        let bytes = &buf[self.byte_pos..(self.byte_pos + self.byte_len)];
        assert(bytes@ == self.value_bytes(buf@));

        match self.block_count {
            Some(block_count) => {
                let block_len = self.block_len / block_count;
                let mut values: Vec<Value> = Vec::new();
                let mut i: usize = 0;
                while i < block_count
                    invariant
                        self.block_count == Some(block_count),
                        block_len == self.block_len / block_count,
                        self.layout_fits(buf@),
                        bytes@ == self.value_bytes(buf@),
                        i <= block_count,
                        values@.len() == i,
                        forall|j: int| 0 <= j < i ==> self.parsed(self.block(buf@, j), Ok(#[trigger] values@[j])),
                    decreases block_count - i,
                {
                    proof {
                        vstd::arithmetic::mul::lemma_mul_inequality(
                            (i + 1) as int,
                            block_count as int,
                            block_len as int,
                        );
                        vstd::arithmetic::mul::lemma_mul_is_commutative(block_count as int, block_len as int);
                        vstd::arithmetic::mul::lemma_mul_is_distributive_add_other_way(block_len as int, i as int, 1);
                    }
                    let start = i * block_len;
                    let block = &bytes[start..(start + block_len)];
                    assert(block@ == self.block(buf@, i as int));
                    match self.parse_value(block) {
                        Ok(value) => {
                            values.push(value);
                        },
                        Err(err) => {
                            assert forall|j: int| 0 <= j < i implies #[trigger] self.block_readable(buf@, j) by {
                                assert(self.parsed(self.block(buf@, j), Ok(values@[j])));
                            }
                            return Err(err);
                        },
                    }
                    i = i + 1;
                }
                Ok(Value::Array(values))
            },
            None => self.parse_value(bytes),
        }
    }

    /// Values that can be written without panicking. A command that cannot
    /// be written refuses every value first. Otherwise the value is encoded
    /// where it fits the data type: a date-time needs a century that has a
    /// BCD byte, so does the time of an error record, and an integer within
    /// the bounds, or a number, needs an integer layout.
    pub open spec fn writable(self, input: Value, lower_bound: Option<i64>, upper_bound: Option<
        i64,
    >) -> bool {
        (self.mode == AccessMode::Write || self.mode == AccessMode::ReadWrite) ==> match (
            self.data_type,
            input,
        ) {
            (DataType::DateTime, Value::DateTime(t)) => bcd_encodable(t@.year),
            (DataType::Error, Value::Error(e)) => e.time matches Some(t) ==> bcd_encodable(t@.year),
            (DataType::Int, Value::Int(n)) | (DataType::Byte, Value::Int(n)) => {
                (!(lower_bound is Some && n < lower_bound->0) && !(upper_bound is Some && n
                    > upper_bound->0)) ==> self.parameter.is_integer()
            },
            (DataType::Double, Value::Number(_)) => self.parameter.is_integer(),
            _ => true,
        }
    }

    /// The bytes that writing a value gives, or the error.
    pub open spec fn encoded(
        self,
        input: Value,
        lower_bound: Option<i64>,
        upper_bound: Option<i64>,
        res: Result<Vec<u8>, Error>,
    ) -> bool {
        if !(self.mode == AccessMode::Write || self.mode == AccessMode::ReadWrite) {
            res matches Err(Error::UnsupportedMode(m)) && m@ == write_mode_message(self.addr)
        } else {
            match (self.data_type, input) {
                (DataType::DateTime, Value::DateTime(t)) => res matches Ok(v) && v@ == date_time_bytes(
                    t@,
                    weekday_from_monday(t@.year, t@.month, t@.day),
                ),
                (DataType::CircuitTimes, Value::CircuitTimes(c)) => res matches Ok(v) && v@
                    == circuit_times_bytes(*c),
                (DataType::ByteArray, Value::ByteArray(b)) => res matches Ok(v) && v@ == b@,
                (DataType::String, Value::String(st)) => res matches Ok(v) && v@ == encode_utf8(st@),
                (DataType::Error, Value::Error(e)) => res matches Ok(v) && v@ == error_bytes(e),
                (DataType::Int, Value::Int(n)) | (DataType::Byte, Value::Int(n)) => {
                    if lower_bound is Some && n < lower_bound->0 {
                        res matches Err(Error::InvalidArgument(m)) && m@ == below_minimum_message(
                            n,
                            lower_bound->0,
                        )
                    } else if upper_bound is Some && n > upper_bound->0 {
                        res matches Err(Error::InvalidArgument(m)) && m@ == above_maximum_message(
                            n,
                            upper_bound->0,
                        )
                    } else {
                        res matches Ok(v) && v@ == int_bytes(n as int, self.parameter)
                    }
                },
                (DataType::Double, Value::Number(n)) => res matches Ok(v) && v@ == int_bytes(
                    n as int,
                    self.parameter,
                ),
                _ => res matches Err(Error::InvalidArgument(_)),
            }
        }
    }

    /// The bytes to write for a value: checks that the command can be written
    /// and that the value fits its data type, and for integers the bounds.
    ///
    /// Numbers for data type `Double` are the integers that the caller made of
    /// a floating-point value after checking it against the bounds.
    pub fn encode_value(&self, input: Value, lower_bound: Option<i64>, upper_bound: Option<i64>) -> (res:
        Result<Vec<u8>, Error>)
        requires
            self.writable(input, lower_bound, upper_bound),
        ensures
            self.encoded(input, lower_bound, upper_bound, res),
    {
        if !self.mode.is_write() {
            return Err(Error::UnsupportedMode(format_write_mode(self.addr)));
        }
        match (self.data_type, input) {
            (DataType::DateTime, Value::DateTime(date_time)) => {
                let b = date_time.to_bytes();
                Ok(vstd::slice::slice_to_vec(&b))
            },
            (DataType::CircuitTimes, Value::CircuitTimes(circuit_times)) => {
                let b = circuit_times.to_bytes();
                Ok(vstd::slice::slice_to_vec(&b))
            },
            (DataType::ByteArray, Value::ByteArray(bytes)) => Ok(bytes),
            (DataType::String, Value::String(s)) => Ok(vstd::slice::slice_to_vec(s.as_str().as_bytes())),
            (DataType::Error, Value::Error(error)) => {
                let b = error.to_bytes();
                Ok(vstd::slice::slice_to_vec(&b))
            },
            (DataType::Int, Value::Int(n)) | (DataType::Byte, Value::Int(n)) => {
                if let Some(lower_bound) = lower_bound {
                    if n < lower_bound {
                        return Err(Error::InvalidArgument(format_below_minimum(n, lower_bound)));
                    }
                }
                if let Some(upper_bound) = upper_bound {
                    if n > upper_bound {
                        return Err(Error::InvalidArgument(format_above_maximum(n, upper_bound)));
                    }
                }
                Ok(encode_int(n, self.parameter))
            },
            (DataType::Double, Value::Number(n)) => Ok(encode_int(n, self.parameter)),
            (data_type, input) => Err(Error::InvalidArgument(format_mismatch(data_type, &input))),
        }
    }

    /// Checks that the command can be read.
    pub fn check_readable(&self) -> (res: Result<(), Error>)
        ensures
            res is Ok <==> (self.mode == AccessMode::Read || self.mode == AccessMode::ReadWrite),
            res matches Err(e) ==> e matches Error::UnsupportedMode(m) && m@ == read_mode_message(self.addr),
    {
        if !self.mode.is_read() {
            return Err(Error::UnsupportedMode(format_read_mode(self.addr)));
        }
        Ok(())
    }
}

/// The number that a number's bytes encode is the number modulo 256 to the
/// power of their count, whichever the byte order.
proof fn lemma_int_bytes_value(m: int, k: int)
    requires
        k == 1 || k == 2 || k == 4,
        0 <= m < pow256(k),
    ensures
        be_value(be_bytes(m, k)) == m,
        be_value(reversed_tail(le_bytes(m, k), 4)) == m,
        be_bytes(m, k).len() == k,
{
    reveal_with_fuel(be_value, 5);
    let x = m as u64;
    assert(x < 0x1_0000_0000);
    if k == 1 {
        assert(be_bytes(m, k) =~= seq![(m % 256) as u8]);
        assert(reversed_tail(le_bytes(m, k), 4) =~= seq![(m % 256) as u8]);
        assert(seq![(m % 256) as u8].drop_last() =~= Seq::<u8>::empty());
    } else if k == 2 {
        let s = seq![((m / 256) % 256) as u8, (m % 256) as u8];
        assert(be_bytes(m, k) =~= s);
        assert(reversed_tail(le_bytes(m, k), 4) =~= s);
        assert(s.drop_last() =~= seq![((m / 256) % 256) as u8]);
        assert(s.drop_last().drop_last() =~= Seq::<u8>::empty());
        assert(((x / 256) % 256) * 256 + x % 256 == x) by (bit_vector)
            requires
                x < 0x1_0000,
        ;
    } else {
        let s = seq![
            ((m / 0x100_0000) % 256) as u8,
            ((m / 0x1_0000) % 256) as u8,
            ((m / 256) % 256) as u8,
            (m % 256) as u8,
        ];
        assert(be_bytes(m, k) =~= s);
        assert(reversed_tail(le_bytes(m, k), 4) =~= s);
        assert(s.drop_last() =~= seq![
            ((m / 0x100_0000) % 256) as u8,
            ((m / 0x1_0000) % 256) as u8,
            ((m / 256) % 256) as u8,
        ]);
        assert(s.drop_last().drop_last() =~= seq![
            ((m / 0x100_0000) % 256) as u8,
            ((m / 0x1_0000) % 256) as u8,
        ]);
        assert(s.drop_last().drop_last().drop_last() =~= seq![((m / 0x100_0000) % 256) as u8]);
        assert(s.drop_last().drop_last().drop_last().drop_last() =~= Seq::<u8>::empty());
        assert(((((x / 0x100_0000) % 256) * 256 + (x / 0x1_0000) % 256) * 256 + (x / 256) % 256)
            * 256 + x % 256 == x) by (bit_vector)
            requires
                x < 0x1_0000_0000,
        ;
    }
}

/// What a command with a bit field reads from bytes: a number below 2 to the
/// power of the field's length, whose bit `j`, counted from its lowest bit, is
/// stream bit `bit_pos + len - 1 - j`, bits being counted from the highest
/// bit of the first byte; so bit 0 of `[0x80]` reads 1.
pub proof fn lemma_bit_field_read(c: Command, bytes: Seq<u8>, j: nat)
    requires
        c.bit_len matches Some(l) && 0 < l <= 32 && j < l && c.bit_pos + l <= 8 * bytes.len(),
    ensures
        c.raw_pattern(bytes) < vstd::arithmetic::power2::pow2(c.bit_len->0 as nat),
        (c.raw_pattern(bytes) / (vstd::arithmetic::power2::pow2(j) as int)) % 2 == stream_bit(
            bytes,
            c.bit_pos + c.bit_len->0 - 1 - j,
        ),
{
    let l = c.bit_len->0 as nat;
    lemma_bit_field(bytes, c.bit_pos as int, l, j);
    vstd::arithmetic::power2::lemma2_to64();
    if l < 32 {
        vstd::arithmetic::power2::lemma_pow2_strictly_increases(l, 32);
    }
    let v = bits_value(bytes, c.bit_pos as int, l);
    assert(v % 0x1_0000_0000 == v) by {
        vstd::arithmetic::div_mod::lemma_small_mod(v, 0x1_0000_0000);
    }
}

/// Reading back the bytes that a command writes for an integer gives the
/// integer modulo 256 to the power of the layout's size, read as a signed
/// 32-bit number; unless these bytes are all 0xFF, which read as no value.
pub proof fn lemma_int_write_read(c: Command, n: int)
    requires
        c.data_type == DataType::Int,
        c.parameter.is_integer(),
        c.bit_len is None,
        !all_ff(int_bytes(n, c.parameter)),
    ensures
        c.raw_pattern(int_bytes(n, c.parameter)) == n % pow256(c.parameter.int_size()),
        c.parsed(
            int_bytes(n, c.parameter),
            Ok(Value::Int(wrap_i32(n % pow256(c.parameter.int_size())) as i64)),
        ),
{
    let k = c.parameter.int_size();
    let m = n % pow256(k);
    lemma_int_bytes_value(m, k);
    let b = int_bytes(n, c.parameter);
    if c.parameter.is_high_byte_first() {
        assert(b.take(if b.len() < 4 { b.len() as int } else { 4 }) =~= b);
    }
    assert(wrap_i32(m) == m || k == 4);
}

/// The byte order of numbers without a bit field: layouts with the high byte
/// first read the bytes as written, all others read the last byte as the
/// highest; so `[0x01, 0x02]` reads 0x0102 in the first case and 0x0201 in the
/// second.
pub proof fn lemma_byte_order(c: Command, s: Seq<u8>)
    requires
        c.bit_len is None,
        1 <= s.len() <= 4,
    ensures
        s.len() == 1 ==> c.raw_pattern(s) == s[0],
        s.len() == 2 ==> c.raw_pattern(s) == if c.parameter.is_high_byte_first() {
            s[0] * 0x100 + s[1]
        } else {
            s[1] * 0x100 + s[0]
        },
        s.len() == 3 ==> c.raw_pattern(s) == if c.parameter.is_high_byte_first() {
            s[0] * 0x1_0000 + s[1] * 0x100 + s[2]
        } else {
            s[2] * 0x1_0000 + s[1] * 0x100 + s[0]
        },
        s.len() == 4 ==> c.raw_pattern(s) == if c.parameter.is_high_byte_first() {
            s[0] * 0x100_0000 + s[1] * 0x1_0000 + s[2] * 0x100 + s[3]
        } else {
            s[3] * 0x100_0000 + s[2] * 0x1_0000 + s[1] * 0x100 + s[0]
        },
{
    reveal_with_fuel(be_value, 5);
    let t = if c.parameter.is_high_byte_first() {
        s.take(s.len() as int)
    } else {
        reversed_tail(s, 4)
    };
    if c.parameter.is_high_byte_first() {
        assert(t =~= s);
    }
    assert(t.len() == s.len());
    if s.len() >= 2 {
        assert(t.drop_last() =~= t.take(t.len() - 1));
    }
    if s.len() >= 3 {
        assert(t.drop_last().drop_last() =~= t.take(t.len() - 2));
    }
    if s.len() >= 4 {
        assert(t.drop_last().drop_last().drop_last() =~= t.take(1));
    }
    assert(t.take(1).drop_last() =~= Seq::<u8>::empty());
}

} // verus!
