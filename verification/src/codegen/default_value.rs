//! The default values of event types, as the vendor data writes them: JSON,
//! a date or a date-time in German order, bytes in hexadecimal, or a text.
use vstd::prelude::*;
use vstd::string::StringExecFns;

use serde_with::DeserializeAs;

use crate::codegen::command::{all_hex_digits, hex_digit_value};
use crate::codegen::strings::{
    after_prefix, parse_u16, parse_u8, parsed_u16, parsed_u8, push_char, replace, replaced,
    strip_prefix,
};
use crate::text::str_eq;
use crate::value::{decimal_text, digit_char, zero_padded};

verus! {

/// A default value: a text that JSON reads, a text, or bytes.
#[derive(Debug, Clone, PartialEq, Eq)]
pub enum DefaultValue {
    Json(String),
    Text(String),
    Bytes(Vec<u8>),
}

/// The view of a default value.
pub enum DefaultValueView {
    Json(Seq<char>),
    Text(Seq<char>),
    Bytes(Seq<u8>),
}

impl View for DefaultValue {
    type V = DefaultValueView;

    open spec fn view(&self) -> DefaultValueView {
        match self {
            DefaultValue::Json(t) => DefaultValueView::Json(t@),
            DefaultValue::Text(t) => DefaultValueView::Text(t@),
            DefaultValue::Bytes(b) => DefaultValueView::Bytes(b@),
        }
    }
}

/// Whether `serde_json` reads a text as a JSON value.
pub uninterp spec fn json_accepts(text: Seq<char>) -> bool;

/// `serde_json::from_str` into a `serde_json::Value`: whether it succeeds
/// is named, not stated.
#[verifier::external_body]
fn is_json(text: &str) -> (res: bool)
    ensures
        res == json_accepts(text@),
{
    serde_json::from_str::<serde_json::Value>(text).is_ok()
}

/// Day, month and year, as the regex `^(?<day>\d{2})\.(?<month>\d{2})\.(?<year>\d{4})$`
/// captures them.
pub uninterp spec fn date_parts(text: Seq<char>) -> Option<(Seq<char>, Seq<char>, Seq<char>)>;

/// `Regex::captures` with the pattern above; what it captures is named,
/// not stated.
#[verifier::external_body]
fn date_captures(text: &str) -> (res: Option<(String, String, String)>)
    ensures
        res is Some <==> date_parts(text@) is Some,
        res matches Some(c) ==> date_parts(text@) == Some((c.0@, c.1@, c.2@)),
{
    match regex::Regex::new(r"^(?<day>\d{2})\.(?<month>\d{2})\.(?<year>\d{4})$").unwrap().captures(
        text,
    ) {
        Some(c) => Some((c["day"].to_owned(), c["month"].to_owned(), c["year"].to_owned())),
        None => None,
    }
}

/// Day, month, year, hour, minute and second, as the regex
/// `^(?<day>\d{2})\.(?<month>\d{2})\.(?<year>\d{4})\s+(?<hour>\d{2}):(?<minute>\d{2}):(?<second>\d{2})$`
/// captures them.
pub uninterp spec fn date_time_parts(text: Seq<char>) -> Option<
    (Seq<char>, Seq<char>, Seq<char>, Seq<char>, Seq<char>, Seq<char>),
>;

/// `Regex::captures` with the pattern above; what it captures is named,
/// not stated.
#[verifier::external_body]
fn date_time_captures(text: &str) -> (res: Option<(String, String, String, String, String, String)>)
    ensures
        res is Some <==> date_time_parts(text@) is Some,
        res matches Some(c) ==> date_time_parts(text@) == Some(
            (c.0@, c.1@, c.2@, c.3@, c.4@, c.5@),
        ),
{
    let pattern =
        r"^(?<day>\d{2})\.(?<month>\d{2})\.(?<year>\d{4})\s+(?<hour>\d{2}):(?<minute>\d{2}):(?<second>\d{2})$";
    match regex::Regex::new(pattern).unwrap().captures(text) {
        Some(c) => Some(
            (
                c["day"].to_owned(),
                c["month"].to_owned(),
                c["year"].to_owned(),
                c["hour"].to_owned(),
                c["minute"].to_owned(),
                c["second"].to_owned(),
            ),
        ),
        None => None,
    }
}

/// Whether a text is hexadecimal: an even number of hexadecimal digits,
/// either case.
pub open spec fn hex_decodable(text: Seq<char>) -> bool {
    text.len() % 2 == 0 && all_hex_digits(text)
}

/// The bytes that pairs of hexadecimal digits spell.
pub open spec fn hex_decoded(text: Seq<char>) -> Seq<u8> {
    Seq::new(
        text.len() / 2,
        |i: int| (hex_digit_value(text[2 * i]) * 16 + hex_digit_value(text[2 * i + 1])) as u8,
    )
}

/// `serde_with::hex::Hex` deserializing a text into bytes, with
/// `hex::decode`: the bytes of its pairs of hexadecimal digits, either case;
/// an error where the text has an odd length or another character.
#[verifier::external_body]
fn hex_bytes(text: &str) -> (res: Option<Vec<u8>>)
    ensures
        res is Some <==> hex_decodable(text@),
        res matches Some(b) ==> b@ == hex_decoded(text@),
{
    let deserializer: serde::de::value::StrDeserializer<'_, serde::de::value::Error> =
        serde::de::value::StrDeserializer::new(text);
    serde_with::hex::Hex::<serde_with::formats::Uppercase>::deserialize_as(deserializer).ok()
}

/// A date as `{year:04}-{month:02}-{day:02}`.
pub open spec fn date_text(year: u16, month: u8, day: u8) -> Seq<char> {
    zero_padded(year as nat, 4) + "-"@ + zero_padded(month as nat, 2) + "-"@ + zero_padded(
        day as nat,
        2,
    )
}

/// A date-time as `{year:04}-{month:02}-{day:02}T{hour:02}:{minute:02}:{second:02}`.
pub open spec fn date_time_text(
    year: u16,
    month: u8,
    day: u8,
    hour: u8,
    minute: u8,
    second: u8,
) -> Seq<char> {
    date_text(year, month, day) + "T"@ + zero_padded(hour as nat, 2) + ":"@ + zero_padded(
        minute as nat,
        2,
    ) + ":"@ + zero_padded(second as nat, 2)
}

/// A default value with a decimal point in place of each comma.
pub open spec fn with_points(text: Seq<char>) -> Seq<char> {
    replaced(text, ","@, "."@)
}

/// Whether the parts of a date are numbers that fit.
pub open spec fn date_parts_read(p: (Seq<char>, Seq<char>, Seq<char>)) -> bool {
    parsed_u8(p.0) is Some && parsed_u8(p.1) is Some && parsed_u16(p.2) is Some
}

/// Whether the parts of a date-time are numbers that fit.
pub open spec fn date_time_parts_read(
    p: (Seq<char>, Seq<char>, Seq<char>, Seq<char>, Seq<char>, Seq<char>),
) -> bool {
    &&& parsed_u8(p.0) is Some && parsed_u8(p.1) is Some && parsed_u16(p.2) is Some
    &&& parsed_u8(p.3) is Some && parsed_u8(p.4) is Some && parsed_u8(p.5) is Some
}

/// Whether the importer reads a default value: a date or a date-time has
/// parts that fit, and bytes after `0x` are hexadecimal.
pub open spec fn default_value_read(text: Seq<char>) -> bool {
    let v = with_points(text);
    text.len() > 0 && !json_accepts(v) ==> if date_parts(v) is Some {
        date_parts_read(date_parts(v)->0)
    } else if date_time_parts(v) is Some {
        date_time_parts_read(date_time_parts(v)->0)
    } else if after_prefix(v, "0x"@) is Some {
        hex_decodable(after_prefix(v, "0x"@)->0)
    } else {
        true
    }
}

/// The default value that a text gives: none for an empty text; else, with
/// points for commas, the JSON that it is, a date or date-time written
/// `DD.MM.YYYY` and `hh:mm:ss` turned around, the bytes after `0x`, none for
/// `--` and `TBD`, or the text.
pub open spec fn default_value_of(text: Seq<char>) -> Option<DefaultValueView> {
    let v = with_points(text);
    if text.len() == 0 {
        None
    } else if json_accepts(v) {
        Some(DefaultValueView::Json(v))
    } else if date_parts(v) is Some {
        let p = date_parts(v)->0;
        Some(DefaultValueView::Text(date_text(parsed_u16(p.2)->0, parsed_u8(p.1)->0, parsed_u8(p.0)->0)))
    } else if date_time_parts(v) is Some {
        let p = date_time_parts(v)->0;
        Some(
            DefaultValueView::Text(
                date_time_text(
                    parsed_u16(p.2)->0,
                    parsed_u8(p.1)->0,
                    parsed_u8(p.0)->0,
                    parsed_u8(p.3)->0,
                    parsed_u8(p.4)->0,
                    parsed_u8(p.5)->0,
                ),
            ),
        )
    } else if after_prefix(v, "0x"@) is Some {
        Some(DefaultValueView::Bytes(hex_decoded(after_prefix(v, "0x"@)->0)))
    } else if v.len() == 0 || v == "--"@ || v == "TBD"@ {
        None
    } else {
        Some(DefaultValueView::Text(v))
    }
}

/// Appends a number in decimal.
fn push_decimal(out: &mut String, n: u16)
    ensures
        final(out)@ == old(out)@ + decimal_text(n as nat),
    decreases n,
{
    if n >= 10 {
        push_decimal(out, n / 10);
    }
    let d = n % 10;
    push_char(out, ((48 + d) as u8) as char);
    proof {
        assert(n as nat % 10 == d);
        if n < 10 {
            assert(decimal_text(n as nat) =~= seq![digit_char(n as nat)]);
        }
    }
}

/// The number of decimal digits of a number below 100000.
proof fn lemma_decimal_len(n: nat)
    requires
        n < 100000,
    ensures
        decimal_text(n).len() == (if n < 10 {
            1int
        } else if n < 100 {
            2int
        } else if n < 1000 {
            3int
        } else if n < 10000 {
            4int
        } else {
            5int
        }),
    decreases n,
{
    if n >= 10 {
        lemma_decimal_len(n / 10);
    }
}

/// Appends a number in decimal with leading zeros up to a width.
fn push_padded(out: &mut String, n: u16, width: u8)
    ensures
        final(out)@ == old(out)@ + zero_padded(n as nat, width as nat),
{
    let len: u8 = if n < 10 {
        1
    } else if n < 100 {
        2
    } else if n < 1000 {
        3
    } else if n < 10000 {
        4
    } else {
        5
    };
    proof {
        lemma_decimal_len(n as nat);
    }
    let ghost start = out@;
    let mut k: u8 = len;
    while k < width
        invariant
            len <= k,
            len < width ==> k <= width,
            len >= width ==> k == len,
            len == decimal_text(n as nat).len(),
            out@ == start + Seq::new((k - len) as nat, |i: int| '0'),
        decreases width - k,
    {
        push_char(out, '0');
        assert(Seq::new((k + 1 - len) as nat, |i: int| '0') =~= Seq::new(
            (k - len) as nat,
            |i: int| '0',
        ).push('0'));
        k = k + 1;
    }
    let ghost zeros = out@;
    push_decimal(out, n);
    proof {
        let d = decimal_text(n as nat);
        if len < width {
            assert(out@ =~= start + zero_padded(n as nat, width as nat));
        } else {
            assert(out@ =~= start + zero_padded(n as nat, width as nat));
        }
    }
}

/// Reads a default value of the vendor data, where its dates, date-times and
/// bytes can be read; see `default_value_of`.
pub fn parse_default_value(default_value: &str) -> (res: Option<DefaultValue>)
    requires
        default_value_read(default_value@),
    ensures
        match res {
            Some(v) => default_value_of(default_value@) == Some(v@),
            None => default_value_of(default_value@) is None,
        },
{
    proof {
        reveal_strlit(",");
        reveal_strlit(".");
        reveal_strlit("-");
        reveal_strlit("T");
        reveal_strlit(":");
        assert("-"@ =~= seq!['-']);
        assert("T"@ =~= seq!['T']);
        assert(":"@ =~= seq![':']);
    }
    if default_value.unicode_len() == 0 {
        return None;
    }
    let value = replace(default_value, ",", ".");
    if is_json(value.as_str()) {
        return Some(DefaultValue::Json(value));
    }
    if let Some((day, month, year)) = date_captures(value.as_str()) {
        let day = parse_u8(day.as_str()).unwrap();
        let month = parse_u8(month.as_str()).unwrap();
        let year = parse_u16(year.as_str()).unwrap();
        let mut text = String::new();
        push_padded(&mut text, year, 4);
        push_char(&mut text, '-');
        push_padded(&mut text, month as u16, 2);
        push_char(&mut text, '-');
        push_padded(&mut text, day as u16, 2);
        assert(text@ =~= date_text(year, month, day));
        return Some(DefaultValue::Text(text));
    }
    if let Some((day, month, year, hour, minute, second)) = date_time_captures(value.as_str()) {
        let day = parse_u8(day.as_str()).unwrap();
        let month = parse_u8(month.as_str()).unwrap();
        let year = parse_u16(year.as_str()).unwrap();
        let hour = parse_u8(hour.as_str()).unwrap();
        let minute = parse_u8(minute.as_str()).unwrap();
        let second = parse_u8(second.as_str()).unwrap();
        let mut text = String::new();
        push_padded(&mut text, year, 4);
        push_char(&mut text, '-');
        push_padded(&mut text, month as u16, 2);
        push_char(&mut text, '-');
        push_padded(&mut text, day as u16, 2);
        push_char(&mut text, 'T');
        push_padded(&mut text, hour as u16, 2);
        push_char(&mut text, ':');
        push_padded(&mut text, minute as u16, 2);
        push_char(&mut text, ':');
        push_padded(&mut text, second as u16, 2);
        assert(text@ =~= date_time_text(year, month, day, hour, minute, second));
        return Some(DefaultValue::Text(text));
    }
    if let Some(digits) = strip_prefix(value.as_str(), "0x") {
        return Some(DefaultValue::Bytes(hex_bytes(digits).unwrap()));
    }
    if value.unicode_len() == 0 || str_eq(value.as_str(), "--") || str_eq(value.as_str(), "TBD") {
        return None;
    }
    Some(DefaultValue::Text(value))
}

/// Reads a default value of the vendor data: `None` where it is a date or a
/// date-time whose parts do not fit, or `0x` and no hexadecimal bytes, which
/// the importer cannot read; else what `parse_default_value` gives.
pub fn read_default_value(default_value: &str) -> (res: Option<Option<DefaultValue>>)
    ensures
        res is Some <==> default_value_read(default_value@),
        res matches Some(r) ==> match r {
            Some(v) => default_value_of(default_value@) == Some(v@),
            None => default_value_of(default_value@) is None,
        },
{
    proof {
        reveal_strlit(",");
    }
    if default_value.unicode_len() > 0 {
        let value = replace(default_value, ",", ".");
        if !is_json(value.as_str()) {
            if let Some((day, month, year)) = date_captures(value.as_str()) {
                if parse_u8(day.as_str()).is_none() || parse_u8(month.as_str()).is_none() || parse_u16(
                    year.as_str(),
                ).is_none() {
                    return None;
                }
            } else if let Some(p) = date_time_captures(value.as_str()) {
                if parse_u8(p.0.as_str()).is_none() || parse_u8(p.1.as_str()).is_none() || parse_u16(
                    p.2.as_str(),
                ).is_none() || parse_u8(p.3.as_str()).is_none() || parse_u8(p.4.as_str()).is_none()
                    || parse_u8(p.5.as_str()).is_none() {
                    return None;
                }
            } else if let Some(digits) = strip_prefix(value.as_str(), "0x") {
                if hex_bytes(digits).is_none() {
                    return None;
                }
            }
        }
    }
    Some(parse_default_value(default_value))
}

} // verus!
