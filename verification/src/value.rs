use vstd::prelude::*;

use crate::types::circuit_time::CircuitTimes;
use crate::types::date_time::{Date, DateTime};
use crate::types::device_id::{DeviceId, DeviceIdF0};
use crate::types::error::Error;
use crate::codegen::strings::push_char;

verus! {

/// A value read from or written to the controller.
///
/// Data points of type `Double` are read as the integer that their bytes
/// hold (`Number`); turning it into a floating-point number and applying a
/// conversion to it is left to the caller.
#[derive(Debug)]
pub enum Value {
    DeviceId(DeviceId),
    DeviceIdF0(DeviceIdF0),
    Int(i64),
    Number(i64),
    ByteArray(Vec<u8>),
    Array(Vec<Value>),
    String(String),
    Date(Date),
    DateTime(DateTime),
    CircuitTimes(Box<CircuitTimes>),
    Error(Error),
    Empty,
}

/// The conversions of a value that work on its bytes.
#[derive(Debug, Clone, Copy, PartialEq, Eq, Structural)]
pub enum ByteConversion {
    HexByteToAsciiByte,
    HexByteToVersion,
    RotateBytes,
}

/// The text of bytes that hold ASCII codes: each byte but the digit `0` as
/// the character of that code.
pub open spec fn ascii_text(bytes: Seq<u8>) -> Seq<char>
    decreases bytes.len(),
{
    if bytes.len() == 0 {
        Seq::empty()
    } else {
        let rest = ascii_text(bytes.drop_last());
        if bytes.last() == 0x30 {
            rest
        } else {
            rest.push(bytes.last() as char)
        }
    }
}

/// The character of a decimal digit.
pub open spec fn digit_char(d: nat) -> char {
    (48 + d) as char
}

/// A number in decimal, without leading zeros.
pub open spec fn decimal_text(n: nat) -> Seq<char>
    decreases n,
{
    if n < 10 {
        seq![digit_char(n)]
    } else {
        decimal_text(n / 10).push(digit_char(n % 10))
    }
}

/// A number in decimal with leading zeros up to a width, as `{:0width}`
/// writes it.
pub open spec fn zero_padded(n: nat, width: nat) -> Seq<char> {
    let d = decimal_text(n);
    if d.len() < width {
        Seq::new((width - d.len()) as nat, |i: int| '0') + d
    } else {
        d
    }
}

/// A signed number in decimal, as `{}` writes it.
pub open spec fn signed_decimal(n: int) -> Seq<char> {
    if n < 0 {
        seq!['-'] + decimal_text((-n) as nat)
    } else {
        decimal_text(n as nat)
    }
}

/// Bytes as a version: each byte in decimal, apart by dots.
pub open spec fn version_text(bytes: Seq<u8>) -> Seq<char>
    decreases bytes.len(),
{
    if bytes.len() == 0 {
        Seq::empty()
    } else if bytes.len() == 1 {
        decimal_text(bytes[0] as nat)
    } else {
        version_text(bytes.drop_last()) + seq!['.'] + decimal_text(bytes.last() as nat)
    }
}

/// The text of bytes that hold ASCII codes, leaving out the digit `0`.
pub fn hex_byte_to_ascii(bytes: &Vec<u8>) -> (res: String)
    ensures
        res@ == ascii_text(bytes@),
{
    let mut out = String::new();
    let mut i: usize = 0;
    while i < bytes.len()
        invariant
            i <= bytes@.len(),
            out@ == ascii_text(bytes@.subrange(0, i as int)),
        decreases bytes@.len() - i,
    {
        let b = bytes[i];
        assert(bytes@.subrange(0, i + 1).drop_last() =~= bytes@.subrange(0, i as int));
        if b != 0x30 {
            push_char(&mut out, b as char);
        }
        i = i + 1;
    }
    assert(bytes@.subrange(0, i as int) =~= bytes@);
    out
}

/// Appends a byte in decimal.
fn push_decimal(out: &mut String, b: u8)
    ensures
        final(out)@ == old(out)@ + decimal_text(b as nat),
{
    proof {
        reveal_with_fuel(decimal_text, 3);
    }
    if b >= 100 {
        push_char(out, ((48 + b / 100) as u8) as char);
    }
    if b >= 10 {
        push_char(out, ((48 + (b / 10) % 10) as u8) as char);
    }
    push_char(out, ((48 + b % 10) as u8) as char);
    proof {
        if b >= 100 {
            assert((b as nat / 10) / 10 == b as nat / 100);
            assert(decimal_text(b as nat) =~= seq![
                digit_char(b as nat / 100),
                digit_char((b as nat / 10) % 10),
                digit_char(b as nat % 10),
            ]);
        } else if b >= 10 {
            assert(decimal_text(b as nat) =~= seq![
                digit_char(b as nat / 10),
                digit_char(b as nat % 10),
            ]);
        }
        assert(final(out)@ =~= old(out)@ + decimal_text(b as nat));
    }
}

/// Bytes as a version text, each byte in decimal apart by dots.
pub fn hex_byte_to_version(bytes: &Vec<u8>) -> (res: String)
    ensures
        res@ == version_text(bytes@),
{
    let mut out = String::new();
    let mut i: usize = 0;
    while i < bytes.len()
        invariant
            i <= bytes@.len(),
            out@ == version_text(bytes@.subrange(0, i as int)),
        decreases bytes@.len() - i,
    {
        let b = bytes[i];
        assert(bytes@.subrange(0, i + 1).drop_last() =~= bytes@.subrange(0, i as int));
        if i > 0 {
            push_char(&mut out, '.');
        }
        push_decimal(&mut out, b);
        proof {
            if i == 0 {
                assert(bytes@.subrange(0, 1)[0] == b);
            }
        }
        i = i + 1;
    }
    assert(bytes@.subrange(0, i as int) =~= bytes@);
    out
}

/// Bytes in reverse order.
pub fn rotate_bytes(bytes: &Vec<u8>) -> (res: Vec<u8>)
    ensures
        res@ == bytes@.reverse(),
{
    let mut out: Vec<u8> = Vec::new();
    let mut i: usize = bytes.len();
    while i > 0
        invariant
            i <= bytes@.len(),
            out@ == bytes@.subrange(i as int, bytes@.len() as int).reverse(),
        decreases i,
    {
        i = i - 1;
        out.push(bytes[i]);
        assert(out@ =~= bytes@.subrange(i as int, bytes@.len() as int).reverse());
    }
    assert(bytes@.subrange(0, bytes@.len() as int) =~= bytes@);
    out
}

impl Value {
    /// Applies a byte conversion: the ASCII and version conversions turn a
    /// byte array into a string, and rotation reverses a byte array and
    /// keeps an integer. On any other value the conversion does not apply
    /// and the value comes back as the error.
    pub fn convert_bytes(self, conversion: ByteConversion) -> (res: Result<Value, Value>)
        ensures
            match (conversion, self) {
                (ByteConversion::HexByteToAsciiByte, Value::ByteArray(b)) => res matches Ok(
                    Value::String(s),
                ) && s@ == ascii_text(b@),
                (ByteConversion::HexByteToVersion, Value::ByteArray(b)) => res matches Ok(
                    Value::String(s),
                ) && s@ == version_text(b@),
                (ByteConversion::RotateBytes, Value::ByteArray(b)) => res matches Ok(
                    Value::ByteArray(r),
                ) && r@ == b@.reverse(),
                (ByteConversion::RotateBytes, Value::Int(n)) => res == Ok::<Value, Value>(
                    Value::Int(n),
                ),
                _ => res == Err::<Value, Value>(self),
            },
    {
        match conversion {
            ByteConversion::HexByteToAsciiByte => {
                if let Value::ByteArray(bytes) = &self {
                    return Ok(Value::String(hex_byte_to_ascii(bytes)));
                }
            },
            ByteConversion::HexByteToVersion => {
                if let Value::ByteArray(bytes) = &self {
                    return Ok(Value::String(hex_byte_to_version(bytes)));
                }
            },
            ByteConversion::RotateBytes => {
                if let Value::ByteArray(bytes) = &self {
                    return Ok(Value::ByteArray(rotate_bytes(bytes)));
                }
                if let Value::Int(n) = self {
                    return Ok(Value::Int(n));
                }
            },
        }
        Err(self)
    }
}

} // verus!
