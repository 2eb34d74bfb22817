//! The command that the importer makes of an event type.
use vstd::prelude::*;
use vstd::string::StringExecFns;

use crate::codegen::cleaned::{Conversion, EventType};
use crate::codegen::strings::{after_prefix, snake_case, snake_cased, strip_prefix, unsigned_digits};
use crate::codegen::unique_mapping::UniqueMapping;
use crate::text::str_eq;

verus! {

/// A command of the generated tables, as the importer writes it. Its lower
/// and upper borders are numbers with a fraction, which the importer copies
/// beside it from the event type.
#[derive(Debug)]
pub struct Command {
    pub addr: u16,
    pub bit_len: Option<u8>,
    pub bit_pos: Option<u8>,
    pub block_count: Option<u8>,
    pub block_len: Option<u16>,
    pub byte_len: Option<u16>,
    pub byte_pos: Option<u8>,
    pub conversion: Option<Conversion>,
    pub data_type: String,
    pub mapping: Option<usize>,
    pub mapping_type: Option<String>,
    pub mode: String,
    pub name: String,
    pub parameter: String,
    pub unit: Option<String>,
}

/// The value of a hexadecimal digit, either case; -1 for another character.
pub open spec fn hex_digit_value(c: char) -> int {
    if '0' <= c <= '9' {
        c as int - '0' as int
    } else if 'a' <= c <= 'f' {
        c as int - 'a' as int + 10
    } else if 'A' <= c <= 'F' {
        c as int - 'A' as int + 10
    } else {
        -1
    }
}

/// Whether all characters of a text are hexadecimal digits.
pub open spec fn all_hex_digits(s: Seq<char>) -> bool {
    forall|k: int| 0 <= k < s.len() ==> hex_digit_value(#[trigger] s[k]) >= 0
}

/// The number that hexadecimal digits spell.
pub open spec fn hex_digits_value(s: Seq<char>) -> int
    decreases s.len(),
{
    if s.len() == 0 {
        0
    } else {
        hex_digits_value(s.drop_last()) * 16 + hex_digit_value(s.last())
    }
}

/// The `u16` that `u16::from_str_radix` reads from a text in base 16: an
/// optional `+` and at least one hexadecimal digit, of a value that fits.
pub open spec fn parsed_hex_u16(s: Seq<char>) -> Option<u16> {
    let digits = unsigned_digits(s);
    if digits.len() > 0 && all_hex_digits(digits) && hex_digits_value(digits) <= 0xffff {
        Some(hex_digits_value(digits) as u16)
    } else {
        None
    }
}

proof fn lemma_hex_digits_value_nonneg(s: Seq<char>)
    requires
        all_hex_digits(s),
    ensures
        hex_digits_value(s) >= 0,
    decreases s.len(),
{
    if s.len() > 0 {
        lemma_hex_digits_value_nonneg(s.drop_last());
    }
}

proof fn lemma_hex_digits_value_prefix(s: Seq<char>, i: int)
    requires
        0 <= i <= s.len(),
        all_hex_digits(s),
    ensures
        hex_digits_value(s.subrange(0, i)) <= hex_digits_value(s),
    decreases s.len() - i,
{
    if i < s.len() {
        lemma_hex_digits_value_prefix(s.drop_last(), i);
        assert(s.drop_last().subrange(0, i) =~= s.subrange(0, i));
        lemma_hex_digits_value_nonneg(s.drop_last());
    } else {
        assert(s.subrange(0, i) =~= s);
    }
}

/// The value of a hexadecimal digit, or `None` for another character.
fn hex_digit(c: char) -> (res: Option<u32>)
    ensures
        res matches Some(d) ==> d == hex_digit_value(c) && d < 16,
        res is None ==> hex_digit_value(c) < 0,
{
    if '0' <= c && c <= '9' {
        Some((c as u32) - ('0' as u32))
    } else if 'a' <= c && c <= 'f' {
        Some((c as u32) - ('a' as u32) + 10)
    } else if 'A' <= c && c <= 'F' {
        Some((c as u32) - ('A' as u32) + 10)
    } else {
        None
    }
}

/// Parses a `u16` in base 16 as `u16::from_str_radix` does.
pub fn parse_hex_u16(s: &str) -> (res: Option<u16>)
    ensures
        res == parsed_hex_u16(s@),
{
    let n = s.unicode_len();
    let start: usize = if n > 0 && s.get_char(0) == '+' {
        1
    } else {
        0
    };
    let ghost digits = unsigned_digits(s@);
    assert(digits =~= s@.subrange(start as int, n as int));
    if start == n {
        return None;
    }
    let mut value: u32 = 0;
    let mut i: usize = start;
    while i < n
        invariant
            n == s@.len(),
            start <= i <= n,
            start < n,
            digits == s@.subrange(start as int, n as int),
            forall|k: int| start <= k < i ==> hex_digit_value(#[trigger] s@[k]) >= 0,
            digits == unsigned_digits(s@),
            value == hex_digits_value(s@.subrange(start as int, i as int)),
            value <= 0xffff,
        decreases n - i,
    {
        let c = s.get_char(i);
        let d = match hex_digit(c) {
            Some(d) => d,
            None => {
                assert(!all_hex_digits(digits)) by {
                    assert(hex_digit_value(digits[i - start]) < 0);
                }
                return None;
            },
        };
        assert(s@.subrange(start as int, i + 1).drop_last() =~= s@.subrange(start as int, i as int));
        let next = value * 16 + d;
        if next > 0xffff {
            proof {
                if all_hex_digits(digits) {
                    lemma_hex_digits_value_prefix(digits, i + 1 - start);
                    assert(digits.subrange(0, i + 1 - start) =~= s@.subrange(start as int, i + 1));
                }
            }
            return None;
        }
        value = next;
        i = i + 1;
    }
    assert(s@.subrange(start as int, n as int) =~= digits);
    Some(value as u16)
}

/// Whether an event type names a conversion.
pub open spec fn names_conversion(c: Option<Conversion>, name: Seq<char>) -> bool {
    c matches Some(Conversion::S(n)) && n@ == name
}

/// The data type that an event type gives: its value type, else its SDK data
/// type.
pub open spec fn given_data_type(e: EventType) -> Seq<char> {
    match e.value_type {
        Some(v) => v@,
        None => e.sdk_data_type.unwrap()@,
    }
}

/// The data type of the command of an event type: a date where its
/// conversion reads only the date of a date-time.
pub open spec fn command_data_type(e: EventType) -> Seq<char> {
    if names_conversion(e.conversion, "date_bcd"@) {
        "Date"@
    } else {
        given_data_type(e)
    }
}

/// The conversion of the command of an event type: the BCD conversions of
/// dates and date-times are the data types' own and go.
pub open spec fn command_conversion(e: EventType) -> Option<Conversion> {
    if names_conversion(e.conversion, "date_time_bcd"@) || names_conversion(
        e.conversion,
        "date_bcd"@,
    ) {
        None
    } else {
        e.conversion
    }
}

/// The address of an event type: `0x` and hexadecimal digits.
pub open spec fn event_address(e: EventType) -> Option<u16> {
    match e.address {
        Some(a) => match after_prefix(a@, "0x"@) {
            Some(h) => parsed_hex_u16(h),
            None => None,
        },
        None => None,
    }
}

/// Whether the importer makes a command of an event type: it gives a data
/// type that its BCD conversion fits, an address and a parameter.
pub open spec fn makes_command(e: EventType) -> bool {
    &&& (e.value_type is Some || e.sdk_data_type is Some)
    &&& names_conversion(e.conversion, "date_time_bcd"@) ==> given_data_type(e) == "DateTime"@
    &&& names_conversion(e.conversion, "date_bcd"@) ==> given_data_type(e) == "DateTime"@
    &&& event_address(e) is Some
    &&& e.parameter is Some
}

/// The number that a mapping gives an id: that of its first entry for the id.
pub open spec fn mapped_number(mapping: Seq<(String, usize)>, id: Seq<char>) -> Option<usize>
    decreases mapping.len(),
{
    if mapping.len() == 0 {
        None
    } else if mapping[0].0@ == id {
        Some(mapping[0].1)
    } else {
        mapped_number(mapping.drop_first(), id)
    }
}

/// Looks up the number that a mapping gives an id.
fn number_of(mapping: &Vec<(String, usize)>, id: &str) -> (res: Option<usize>)
    ensures
        res == mapped_number(mapping@, id@),
{
    let mut i: usize = 0;
    assert(mapping@.subrange(0, mapping@.len() as int) =~= mapping@);
    while i < mapping.len()
        invariant
            i <= mapping@.len(),
            mapped_number(mapping@, id@) == mapped_number(mapping@.subrange(i as int, mapping@.len() as int), id@),
        decreases mapping@.len() - i,
    {
        assert(mapping@.subrange(i as int, mapping@.len() as int).drop_first() =~= mapping@.subrange(
            i + 1,
            mapping@.len() as int,
        ));
        if str_eq(mapping[i].0.as_str(), id) {
            return Some(mapping[i].1);
        }
        i = i + 1;
    }
    None
}

impl Command {
    /// Makes the command of an event type: its data type and conversion, its
    /// address read from `0x` and hexadecimal digits, the number of its value
    /// list where it has one, and its parameter in snake case; the rest is
    /// copied.
    pub fn from_event_type<V>(
        event_type_id: String,
        event_type: EventType,
        mappings_unique: &UniqueMapping<V>,
    ) -> (res: Command)
        requires
            makes_command(event_type),
        ensures
            res.addr == event_address(event_type).unwrap(),
            res.bit_len == event_type.bit_length,
            res.bit_pos == event_type.bit_position,
            res.block_count == event_type.block_factor,
            res.block_len == event_type.block_length,
            res.byte_len == event_type.byte_length,
            res.byte_pos == event_type.byte_position,
            res.conversion == command_conversion(event_type),
            res.data_type@ == command_data_type(event_type),
            res.mapping == (if event_type.value_list@.len() > 0 {
                mapped_number(mappings_unique.mapping@, event_type_id@)
            } else {
                None
            }),
            res.mapping_type == event_type.mapping_type,
            res.mode@ == event_type.access_mode@,
            res.name@ == event_type_id@,
            res.parameter@ == snake_cased(event_type.parameter.unwrap()@),
            res.unit == event_type.unit,
    {
        let ghost e = event_type;
        proof {
            reveal_strlit("date_time_bcd");
            reveal_strlit("date_bcd");
        }
        let EventType {
            access_mode,
            address,
            bit_length,
            bit_position,
            block_factor,
            block_length,
            byte_length,
            byte_position,
            conversion,
            fc_read: _,
            fc_write: _,
            mapping_type,
            parameter,
            sdk_data_type,
            unit,
            value_list,
            value_type,
        } = event_type;
        let mut data_type = match value_type {
            Some(v) => v,
            None => sdk_data_type.unwrap(),
        };
        let conversion = match conversion {
            Some(Conversion::S(name)) => {
                if str_eq(name.as_str(), "date_time_bcd") {
                    assert("date_time_bcd"@.len() != "date_bcd"@.len());
                    None
                } else if str_eq(name.as_str(), "date_bcd") {
                    data_type = String::from_str("Date");
                    None
                } else {
                    Some(Conversion::S(name))
                }
            },
            other => other,
        };
        let address = address.unwrap();
        let digits = strip_prefix(address.as_str(), "0x").unwrap();
        let addr = parse_hex_u16(digits).unwrap();
        let mapping = if value_list.len() > 0 {
            number_of(&mappings_unique.mapping, event_type_id.as_str())
        } else {
            None
        };
        let parameter = snake_case(parameter.unwrap().as_str());
        Command {
            addr,
            bit_len: bit_length,
            bit_pos: bit_position,
            block_count: block_factor,
            block_len: block_length,
            byte_len: byte_length,
            byte_pos: byte_position,
            conversion,
            data_type,
            mapping,
            mapping_type,
            mode: access_mode,
            name: event_type_id,
            parameter,
            unit,
        }
    }
}

} // verus!
