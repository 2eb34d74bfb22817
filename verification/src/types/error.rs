use vstd::prelude::*;

use super::date_time::{
    bcd_encodable, date_time_bytes, decode_date_time, invalid_date_time_message, lemma_date_time_bytes_roundtrip, valid_date_time,
    weekday_from_monday, DateTime,
};

use crate::device::{first_code, Device};
use crate::value::decimal_text;

verus! {

/// The message of an error record whose time is not valid.
pub open spec fn invalid_error_time_message(index: u8, cause: Seq<char>) -> Seq<char> {
    "invalid time for error "@ + decimal_text(index as nat) + ": "@ + cause
}

/// Formats `invalid time for error {index}: {cause}` with `format!`.
#[verifier::external_body]
fn format_invalid_error_time(index: u8, cause: &str) -> (res: String)
    ensures
        res@ == invalid_error_time_message(index, cause@),
{
    format!("invalid time for error {index}: {cause}")
}

/// An entry of the error history of a device: the error code and when it occurred.
#[derive(Debug, Clone)]
pub struct Error {
    pub index: u8,
    pub time: Option<DateTime>,
}

/// The nine bytes of an error record: the code, then the BCD encoding of the
/// time, with the weekday counted from 1 for Monday, or eight zeros where
/// there is no time.
pub open spec fn error_bytes(e: Error) -> Seq<u8> {
    seq![e.index] + match e.time {
        Some(t) => date_time_bytes(t@, weekday_from_monday(t@.year, t@.month, t@.day) + 1),
        None => seq![0u8, 0u8, 0u8, 0u8, 0u8, 0u8, 0u8, 0u8],
    }
}

impl Error {
    /// Creates an error record with a time.
    pub fn new(index: u8, time: DateTime) -> (res: Self)
        ensures
            res.index == index,
            res.time == Some(time),
    {
        Error { index, time: Some(time) }
    }

    /// The error code.
    pub fn index(&self) -> (res: u8)
        ensures
            res == self.index,
    {
        self.index
    }

    /// The text that a device gives the error code, if it has one.
    pub fn to_str(&self, device: &Device) -> (res: Option<&'static str>)
        ensures
            res == (match first_code(device.errors@, self.index as i32) {
                Some(i) => Some(device.errors@[i].1),
                None => None,
            }),
    {
        device.error_text(self.index as i32)
    }

    /// When the error occurred, if known.
    pub fn time(&self) -> (res: Option<&DateTime>)
        ensures
            res == match self.time {
                Some(t) => Some(&t),
                None => None::<&DateTime>,
            },
    {
        self.time.as_ref()
    }

    /// Reads an error record: the code, then the time in BCD. A record with
    /// code 0 may lack a valid time; any other code needs one.
    pub fn from_bytes(bytes: &[u8; 9]) -> (res: Result<Self, crate::error::Error>)
        ensures
            ({
                let index = bytes@[0];
                let t = decode_date_time(bytes@.subrange(1, 9));
                &&& res is Ok <==> (valid_date_time(t) || index == 0)
                &&& res matches Ok(e) ==> e.index == index && (if valid_date_time(t) {
                    e.time matches Some(d) && d@ == t
                } else {
                    e.time is None
                })
                &&& res matches Err(err) ==> err matches crate::error::Error::InvalidFormat(m)
                    && m@ == invalid_error_time_message(
                    index,
                    invalid_date_time_message(
                        t.year as u16,
                        t.month as u8,
                        t.day as u8,
                        t.hour as u8,
                        t.minute as u8,
                        t.second as u8,
                    ),
                )
            }),
    {
        let index = bytes[0];
        let time_bytes: [u8; 8] = [
            bytes[1],
            bytes[2],
            bytes[3],
            bytes[4],
            bytes[5],
            bytes[6],
            bytes[7],
            bytes[8],
        ];
        assert(time_bytes@ =~= bytes@.subrange(1, 9));
        let time = match DateTime::from_bytes(&time_bytes) {
            Ok(time) => Some(time),
            Err(err) => {
                if index == 0 {
                    None
                } else {
                    let cause = match err {
                        crate::error::Error::InvalidFormat(m) => m,
                        _ => String::new(),
                    };
                    return Err(
                        crate::error::Error::InvalidFormat(
                            format_invalid_error_time(index, cause.as_str()),
                        ),
                    );
                }
            },
        };

        Ok(Error { index, time })
    }

    /// Writes the error record as nine bytes.
    pub fn to_bytes(&self) -> (res: [u8; 9])
        requires
            self.time matches Some(t) ==> bcd_encodable(t@.year),
        ensures
            res@ == error_bytes(*self),
    {
        let mut bytes = [0u8; 9];
        bytes[0] = self.index;

        if let Some(time) = &self.time {
            let time_bytes = time.to_bytes();
            let mut i: usize = 0;
            while i < 8
                invariant
                    0 <= i <= 8,
                    bytes@.len() == 9,
                    bytes@[0] == self.index,
                    forall|j: int| 0 <= j < i ==> bytes@[j + 1] == time_bytes@[j],
                decreases 8 - i,
            {
                bytes[i + 1] = time_bytes[i];
                i = i + 1;
            }
            bytes[5] = time.weekday() + 1;
            assert(bytes@ =~= error_bytes(*self));
        } else {
            assert(bytes@ =~= error_bytes(*self));
        }

        bytes
    }
}

/// Reading back the bytes of an error record gives the record back: the same
/// code, and the same time where it has one in the years 0 to 9999. A record
/// without a time reads back only with code 0; with another code its zero
/// time is refused.
pub proof fn lemma_error_roundtrip(e: Error)
    requires
        e.time matches Some(t) ==> valid_date_time(t@) && 0 <= t@.year <= 9999,
    ensures
        error_bytes(e).len() == 9,
        error_bytes(e)[0] == e.index,
        ({
            let t = decode_date_time(error_bytes(e).subrange(1, 9));
            match e.time {
                Some(d) => valid_date_time(t) && t == d@,
                None => !valid_date_time(t),
            }
        }),
{
    let b = error_bytes(e);
    match e.time {
        Some(d) => {
            let w = weekday_from_monday(d@.year, d@.month, d@.day) + 1;
            lemma_date_time_bytes_roundtrip(d@, w);
            assert(b.subrange(1, 9) =~= date_time_bytes(d@, w));
        },
        None => {
            assert(b.subrange(1, 9) =~= seq![0u8, 0u8, 0u8, 0u8, 0u8, 0u8, 0u8, 0u8]);
        },
    }
}

} // verus!
