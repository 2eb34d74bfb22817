use vstd::prelude::*;

use crate::error::Error;
use crate::value::zero_padded;

verus! {

// ---------------------------------------------------------------------------
// Binary-coded decimal
// ---------------------------------------------------------------------------

/// The number that a binary-coded-decimal byte stands for: its high nibble
/// counts tens and its low nibble counts ones.
pub open spec fn bcd_value(byte: u8) -> int {
    (byte / 16) * 10 + byte % 16
}

/// The binary-coded-decimal byte of a number: tens in the high nibble, ones in
/// the low nibble.
pub open spec fn bcd_byte(dec: u8) -> int {
    (dec / 10) * 16 + dec % 10
}

/// A byte both of whose nibbles are decimal digits.
pub open spec fn is_bcd(byte: u8) -> bool {
    byte / 16 < 10 && byte % 16 < 10
}

/// Maps a number from binary-coded-decimal (BCD) representation to decimal representation.
///
/// For example, `bcd_to_dec(0x15)` returns `15`.
pub fn bcd_to_dec(byte: u8) -> (res: u8)
    ensures
        res == bcd_value(byte),
{
    byte / 16 * 10 + byte % 16
}

/// Maps a number from decimal representation to binary-coded-decimal (BCD) representation.
///
/// For example, `dec_to_bcd(15)` returns `0x15`. Numbers from 160 on do not
/// fit in a byte this way.
pub fn dec_to_bcd(dec: u8) -> (res: u8)
    requires
        dec < 160,
    ensures
        res == bcd_byte(dec),
{
    dec / 10 * 16 + dec % 10
}

/// Decoding the BCD byte of a number below 100 gives the number back.
pub proof fn lemma_bcd_roundtrip(dec: u8)
    requires
        dec < 100,
    ensures
        bcd_byte(dec) < 256,
        is_bcd(bcd_byte(dec) as u8),
        bcd_value(bcd_byte(dec) as u8) == dec,
{
    assert(((dec / 10) * 16 + dec % 10) < 256 && ((((dec / 10) * 16 + dec % 10) as u8) / 16) == dec
        / 10 && ((((dec / 10) * 16 + dec % 10) as u8) % 16) == dec % 10) by (bit_vector)
        requires
            dec < 100,
    ;
}

/// Encoding the value of a valid BCD byte gives the byte back.
pub proof fn lemma_dec_roundtrip(byte: u8)
    requires
        is_bcd(byte),
    ensures
        bcd_value(byte) < 100,
        bcd_byte(bcd_value(byte) as u8) == byte,
{
    assert(((byte / 16) * 10 + byte % 16) < 100 && ((((byte / 16) * 10 + byte % 16) as u8) / 10) * 16
        + (((byte / 16) * 10 + byte % 16) as u8) % 10 == byte) by (bit_vector)
        requires
            byte / 16 < 10,
            byte % 16 < 10,
    ;
}

// ---------------------------------------------------------------------------
// Calendar
// ---------------------------------------------------------------------------

/// The first year of the proleptic Gregorian calendar that dates can have.
pub open spec fn min_year() -> int {
    -262143
}

/// The last year of the proleptic Gregorian calendar that dates can have.
pub open spec fn max_year() -> int {
    262142
}

/// Leap years of the proleptic Gregorian calendar.
pub open spec fn is_leap_year(year: int) -> bool {
    year % 4 == 0 && (year % 100 != 0 || year % 400 == 0)
}

/// Number of days of a month (1 to 12) of a year.
pub open spec fn days_in_month(year: int, month: int) -> int {
    if month == 2 {
        if is_leap_year(year) {
            29
        } else {
            28
        }
    } else if month == 4 || month == 6 || month == 9 || month == 11 {
        30
    } else {
        31
    }
}

/// The calendar dates that exist.
pub open spec fn valid_ymd(year: int, month: int, day: int) -> bool {
    &&& min_year() <= year <= max_year()
    &&& 1 <= month <= 12
    &&& 1 <= day <= days_in_month(year, month)
}

/// The times of day with whole seconds, without leap seconds.
pub open spec fn valid_hms(hour: int, minute: int, second: int) -> bool {
    0 <= hour < 24 && 0 <= minute < 60 && 0 <= second < 60
}

/// Offset of a month in the day-of-week computation.
pub open spec fn month_offset(month: int) -> int {
    if month == 1 {
        0
    } else if month == 2 {
        3
    } else if month == 3 {
        2
    } else if month == 4 {
        5
    } else if month == 5 {
        0
    } else if month == 6 {
        3
    } else if month == 7 {
        5
    } else if month == 8 {
        1
    } else if month == 9 {
        4
    } else if month == 10 {
        6
    } else if month == 11 {
        2
    } else {
        4
    }
}

/// Day of the week of a date, counted from 0 (Monday) to 6 (Sunday).
pub open spec fn weekday_from_monday(year: int, month: int, day: int) -> int {
    let y = if month < 3 {
        year - 1
    } else {
        year
    };
    let from_sunday = (y + y / 4 - y / 100 + y / 400 + month_offset(month) + day) % 7;
    (from_sunday + 6) % 7
}

/// Whether `chrono::NaiveDate::from_ymd_opt` accepts the date; it accepts the
/// dates of the proleptic Gregorian calendar in its year range.
#[verifier::external_body]
fn chrono_date_exists(year: i32, month: u32, day: u32) -> (res: bool)
    ensures
        res == valid_ymd(year as int, month as int, day as int),
{
    chrono::NaiveDate::from_ymd_opt(year, month, day).is_some()
}

/// Whether `chrono::NaiveTime::from_hms_opt` accepts the time of day; it
/// rejects hours from 24, minutes and seconds from 60.
#[verifier::external_body]
fn chrono_time_exists(hour: u32, minute: u32, second: u32) -> (res: bool)
    ensures
        res == valid_hms(hour as int, minute as int, second as int),
{
    chrono::NaiveTime::from_hms_opt(hour, minute, second).is_some()
}

/// The weekday that chrono gives an existing date
/// (`Datelike::weekday` and `Weekday::num_days_from_monday`).
#[verifier::external_body]
fn chrono_weekday(year: i32, month: u32, day: u32) -> (res: u8)
    requires
        valid_ymd(year as int, month as int, day as int),
    ensures
        res == weekday_from_monday(year as int, month as int, day as int),
{
    chrono::Datelike::weekday(&chrono::NaiveDate::from_ymd_opt(year, month, day).unwrap()).num_days_from_monday() as u8
}

/// What `chrono::NaiveDate::parse_from_str` reads from a string with the
/// format `%Y-%m-%d`, as year, month and day.
pub uninterp spec fn chrono_parse_date(s: Seq<char>) -> Option<(i32, u32, u32)>;

/// What `chrono::NaiveDateTime::parse_from_str` reads from a string with the
/// format `%Y-%m-%dT%H:%M:%S`, as year, month, day, hour, minute and second.
pub uninterp spec fn chrono_parse_date_time(s: Seq<char>) -> Option<(i32, u32, u32, u32, u32, u32)>;

/// Parses a date with `chrono::NaiveDate::parse_from_str` and the format
/// `%Y-%m-%d`. Each date that chrono returns exists.
#[verifier::external_body]
fn chrono_parse_date_fields(s: &str) -> (res: Option<(i32, u32, u32)>)
    ensures
        res == chrono_parse_date(s@),
        res matches Some(f) ==> valid_ymd(f.0 as int, f.1 as int, f.2 as int),
{
    match chrono::NaiveDate::parse_from_str(s, "%Y-%m-%d") {
        Ok(d) => Some((chrono::Datelike::year(&d), chrono::Datelike::month(&d), chrono::Datelike::day(&d))),
        Err(_) => None,
    }
}

/// Parses a date-time with `chrono::NaiveDateTime::parse_from_str` and the
/// format `%Y-%m-%dT%H:%M:%S`. Each date-time that chrono returns exists, and
/// its second is below 60 (a leap second reads as 59).
#[verifier::external_body]
fn chrono_parse_date_time_fields(s: &str) -> (res: Option<(i32, u32, u32, u32, u32, u32)>)
    ensures
        res == chrono_parse_date_time(s@),
        res matches Some(f) ==> valid_ymd(f.0 as int, f.1 as int, f.2 as int) && valid_hms(
            f.3 as int,
            f.4 as int,
            f.5 as int,
        ),
{
    match chrono::NaiveDateTime::parse_from_str(s, "%Y-%m-%dT%H:%M:%S") {
        Ok(t) => Some((
            chrono::Datelike::year(&t),
            chrono::Datelike::month(&t),
            chrono::Datelike::day(&t),
            chrono::Timelike::hour(&t),
            chrono::Timelike::minute(&t),
            chrono::Timelike::second(&t),
        )),
        Err(_) => None,
    }
}

/// The local date-time of a unix timestamp, from
/// `chrono::DateTime::from_timestamp_secs` and the machine's time zone. chrono
/// adds the time zone's offset, a `FixedOffset`, which is always less than a
/// day; which offset applies depends on the machine, so only the validity of
/// the date-time and that bound are stated.
#[verifier::external_body]
fn chrono_local_from_timestamp(timestamp: u32) -> (res: (i32, u32, u32, u32, u32, u32))
    ensures
        valid_ymd(res.0 as int, res.1 as int, res.2 as int),
        valid_hms(res.3 as int, res.4 as int, res.5 as int),
        ({
            let local = epoch_seconds(
                DateTimeModel {
                    year: res.0 as int,
                    month: res.1 as int,
                    day: res.2 as int,
                    hour: res.3 as int,
                    minute: res.4 as int,
                    second: res.5 as int,
                },
            );
            timestamp - 86400 < local < timestamp + 86400
        }),
{
    let t = chrono::DateTime::from_timestamp_secs(timestamp.into()).unwrap().with_timezone(&chrono::Local).naive_local();
    (
        chrono::Datelike::year(&t),
        chrono::Datelike::month(&t),
        chrono::Datelike::day(&t),
        chrono::Timelike::hour(&t),
        chrono::Timelike::minute(&t),
        chrono::Timelike::second(&t),
    )
}

/// The number of days from 1970-01-01 to a date of the proleptic Gregorian
/// calendar, negative before it.
pub open spec fn unix_days(year: int, month: int, day: int) -> int {
    let y = if month <= 2 {
        year - 1
    } else {
        year
    };
    let era = y / 400;
    let yoe = y - era * 400;
    let mp = if month > 2 {
        month - 3
    } else {
        month + 9
    };
    let doy = (153 * mp + 2) / 5 + day - 1;
    let doe = yoe * 365 + yoe / 4 - yoe / 100 + doy;
    era * 146097 + doe - 719468
}

/// The seconds from 1970-01-01T00:00:00 to a date-time, both read in the same
/// time zone.
pub open spec fn epoch_seconds(t: DateTimeModel) -> int {
    unix_days(t.year, t.month, t.day) * 86400 + t.hour * 3600 + t.minute * 60 + t.second
}

/// The unix timestamp of a local date-time, from `NaiveDateTime::and_local_timezone`
/// with the machine's time zone and `DateTime::timestamp`; `None` where chrono
/// finds no such local time or finds it twice. chrono takes the timestamp as
/// the local date-time less the time zone's offset, a `FixedOffset`, which is
/// always less than a day; which offset applies depends on the machine, so
/// only that bound is stated.
#[verifier::external_body]
fn chrono_local_timestamp(year: i32, month: u32, day: u32, hour: u32, minute: u32, second: u32) -> (res: Option<i64>)
    requires
        valid_ymd(year as int, month as int, day as int),
        valid_hms(hour as int, minute as int, second as int),
    ensures
        res matches Some(t) ==> ({
            let local = epoch_seconds(
                DateTimeModel {
                    year: year as int,
                    month: month as int,
                    day: day as int,
                    hour: hour as int,
                    minute: minute as int,
                    second: second as int,
                },
            );
            local - 86400 < t < local + 86400
        }),
{
    let t = chrono::NaiveDate::from_ymd_opt(year, month, day).unwrap().and_hms_opt(hour, minute, second).unwrap();
    match t.and_local_timezone(chrono::Local) {
        chrono::MappedLocalTime::Single(d) => Some(d.timestamp()),
        chrono::MappedLocalTime::Ambiguous(_, _) => None,
        chrono::MappedLocalTime::None => None,
    }
}

/// The message of an invalid date.
pub open spec fn invalid_date_message(year: u16, month: u8, day: u8) -> Seq<char> {
    "invalid date: "@ + zero_padded(year as nat, 4) + "-"@ + zero_padded(month as nat, 2) + "-"@
        + zero_padded(day as nat, 2)
}

/// The message of an invalid date-time.
pub open spec fn invalid_date_time_message(
    year: u16,
    month: u8,
    day: u8,
    hour: u8,
    minute: u8,
    second: u8,
) -> Seq<char> {
    "invalid date-time: "@ + zero_padded(year as nat, 4) + "-"@ + zero_padded(month as nat, 2)
        + "-"@ + zero_padded(day as nat, 2) + "T"@ + zero_padded(hour as nat, 2) + ":"@
        + zero_padded(minute as nat, 2) + ":"@ + zero_padded(second as nat, 2)
}

/// Formats `invalid date: YYYY-MM-DD` with `format!`.
#[verifier::external_body]
fn format_invalid_date(year: u16, month: u8, day: u8) -> (res: String)
    ensures
        res@ == invalid_date_message(year, month, day),
{
    format!("invalid date: {year:04}-{month:02}-{day:02}")
}

/// Formats `invalid date-time: YYYY-MM-DDTHH:MM:SS` with `format!`.
#[verifier::external_body]
fn format_invalid_date_time(year: u16, month: u8, day: u8, hour: u8, minute: u8, second: u8) -> (res: String)
    ensures
        res@ == invalid_date_time_message(year, month, day, hour, minute, second),
{
    format!("invalid date-time: {year:04}-{month:02}-{day:02}T{hour:02}:{minute:02}:{second:02}")
}

// ---------------------------------------------------------------------------
// Date
// ---------------------------------------------------------------------------

/// The fields of a date.
pub struct DateModel {
    pub year: int,
    pub month: int,
    pub day: int,
}

/// A calendar date.
#[derive(Debug, Clone, Copy)]
pub struct Date {
    year: i32,
    month: u8,
    day: u8,
}

impl View for Date {
    type V = DateModel;

    closed spec fn view(&self) -> DateModel {
        DateModel { year: self.year as int, month: self.month as int, day: self.day as int }
    }
}

/// The BCD encoding of a date: century, year of the century, month, day, weekday and zeros.
pub open spec fn date_bytes(d: DateModel, weekday: int) -> Seq<u8> {
    seq![
        bcd_byte(((d.year as u16) / 100) as u8) as u8,
        bcd_byte(((d.year as u16) % 100) as u8) as u8,
        bcd_byte(d.month as u8) as u8,
        bcd_byte(d.day as u8) as u8,
        weekday as u8,
        0u8,
        0u8,
        0u8,
    ]
}

/// The year that the first two BCD bytes of a date encode.
pub open spec fn bcd_year(b0: u8, b1: u8) -> int {
    bcd_value(b0) * 100 + bcd_value(b1)
}

/// The year as the sixteen bits that the encoding keeps of it.
pub open spec fn year_u16(year: int) -> u16 {
    year as u16
}

/// Years whose century, taken as a byte, has a BCD encoding (below 160).
pub open spec fn bcd_encodable(year: int) -> bool {
    ((year_u16(year) / 100) as u8) < 160
}

/// The date that the first four BCD bytes of an encoding stand for.
pub open spec fn decode_date(b: Seq<u8>) -> DateModel {
    DateModel { year: bcd_year(b[0], b[1]), month: bcd_value(b[2]), day: bcd_value(b[3]) }
}

impl Date {
    #[verifier::type_invariant]
    closed spec fn wf(self) -> bool {
        valid_ymd(self.year as int, self.month as int, self.day as int)
    }

    /// Creates a new date from the given year, month and day.
    pub fn new(year: u16, month: u8, day: u8) -> (res: Option<Self>)
        ensures
            res is Some <==> valid_ymd(year as int, month as int, day as int),
            res matches Some(d) ==> d@ == (DateModel {
                year: year as int,
                month: month as int,
                day: day as int,
            }),
    {
        if chrono_date_exists(year as i32, month as u32, day as u32) {
            Some(Date { year: year as i32, month, day })
        } else {
            None
        }
    }

    /// Decodes a date from its BCD encoding; the weekday byte and the
    /// last three bytes are not read.
    pub fn from_bytes(bytes: &[u8; 8]) -> (res: Result<Self, Error>)
        ensures
            ({
                let d = decode_date(bytes@);
                &&& res is Ok <==> valid_ymd(d.year, d.month, d.day)
                &&& res matches Ok(r) ==> r@ == d
                &&& res matches Err(e) ==> e matches Error::InvalidFormat(m) && m@
                    == invalid_date_message(d.year as u16, d.month as u8, d.day as u8)
            }),
    {
        let year: u16 = bcd_to_dec(bytes[0]) as u16 * 100 + bcd_to_dec(bytes[1]) as u16;
        let month = bcd_to_dec(bytes[2]);
        let day = bcd_to_dec(bytes[3]);

        if chrono_date_exists(year as i32, month as u32, day as u32) {
            Ok(Date { year: year as i32, month, day })
        } else {
            Err(Error::InvalidFormat(format_invalid_date(year, month, day)))
        }
    }

    /// Encodes the date: century, year of the century, month and day in BCD,
    /// then the weekday and three zeros.
    pub fn to_bytes(&self) -> (res: [u8; 8])
        requires
            bcd_encodable(self@.year),
        ensures
            res@ == date_bytes(self@, weekday_from_monday(self@.year, self@.month, self@.day)),
    {
        proof {
            use_type_invariant(self);
        }
        let year = self.year();
        [
            dec_to_bcd((year / 100) as u8),
            dec_to_bcd((year % 100) as u8),
            dec_to_bcd(self.month),
            dec_to_bcd(self.day),
            self.weekday(),
            0,
            0,
            0,
        ]
    }

    /// Returns the year of this date, as the sixteen bits that fit a `u16`.
    pub fn year(&self) -> (res: u16)
        ensures
            res == year_u16(self@.year),
    {
        self.year as u16
    }

    /// Returns the month of this date.
    pub fn month(&self) -> (res: u8)
        ensures
            res == self@.month,
    {
        self.month
    }

    /// Returns the day of this date.
    pub fn day(&self) -> (res: u8)
        ensures
            res == self@.day,
    {
        self.day
    }

    /// Returns the weekday of this date, as a number from 0 (Monday) to 6 (Sunday).
    pub fn weekday(&self) -> (res: u8)
        ensures
            res == weekday_from_monday(self@.year, self@.month, self@.day),
    {
        proof {
            use_type_invariant(self);
        }
        chrono_weekday(self.year, self.month as u32, self.day as u32)
    }

    /// Parses a date written as `%Y-%m-%d`, as chrono reads it.
    pub fn parse_str(s: &str) -> (res: Result<Self, ()>)
        ensures
            res is Ok <==> chrono_parse_date(s@) is Some,
            res matches Ok(d) ==> ({
                let f = chrono_parse_date(s@)->0;
                d@ == (DateModel { year: f.0 as int, month: f.1 as int, day: f.2 as int })
            }),
    {
        match chrono_parse_date_fields(s) {
            Some((year, month, day)) => Ok(Date { year, month: month as u8, day: day as u8 }),
            None => Err(()),
        }
    }
}

impl core::str::FromStr for Date {
    type Err = ();

    fn from_str(s: &str) -> (res: Result<Self, Self::Err>)
        ensures
            res is Ok <==> chrono_parse_date(s@) is Some,
            res matches Ok(d) ==> ({
                let f = chrono_parse_date(s@)->0;
                d@ == (DateModel { year: f.0 as int, month: f.1 as int, day: f.2 as int })
            }),
    {
        Date::parse_str(s)
    }
}

// ---------------------------------------------------------------------------
// DateTime
// ---------------------------------------------------------------------------

/// The fields of a date-time.
pub struct DateTimeModel {
    pub year: int,
    pub month: int,
    pub day: int,
    pub hour: int,
    pub minute: int,
    pub second: int,
}

/// The date-times that exist: an existing date and a time of day.
pub open spec fn valid_date_time(t: DateTimeModel) -> bool {
    valid_ymd(t.year, t.month, t.day) && valid_hms(t.hour, t.minute, t.second)
}

/// The date-time that BCD bytes stand for: century, year of the century,
/// month, day, a weekday that is not read, hour, minute and second.
pub open spec fn decode_date_time(b: Seq<u8>) -> DateTimeModel {
    DateTimeModel {
        year: bcd_year(b[0], b[1]),
        month: bcd_value(b[2]),
        day: bcd_value(b[3]),
        hour: bcd_value(b[5]),
        minute: bcd_value(b[6]),
        second: bcd_value(b[7]),
    }
}

/// The BCD encoding of a date-time with the given weekday byte.
pub open spec fn date_time_bytes(t: DateTimeModel, weekday: int) -> Seq<u8> {
    seq![
        bcd_byte(((t.year as u16) / 100) as u8) as u8,
        bcd_byte(((t.year as u16) % 100) as u8) as u8,
        bcd_byte(t.month as u8) as u8,
        bcd_byte(t.day as u8) as u8,
        weekday as u8,
        bcd_byte(t.hour as u8) as u8,
        bcd_byte(t.minute as u8) as u8,
        bcd_byte(t.second as u8) as u8,
    ]
}

/// A date and a time of day, with whole seconds.
#[derive(Debug, Clone, Copy)]
pub struct DateTime {
    year: i32,
    month: u8,
    day: u8,
    hour: u8,
    minute: u8,
    second: u8,
}

impl View for DateTime {
    type V = DateTimeModel;

    closed spec fn view(&self) -> DateTimeModel {
        DateTimeModel {
            year: self.year as int,
            month: self.month as int,
            day: self.day as int,
            hour: self.hour as int,
            minute: self.minute as int,
            second: self.second as int,
        }
    }
}

impl DateTime {
    #[verifier::type_invariant]
    closed spec fn wf(self) -> bool {
        valid_date_time(self@)
    }

    /// Creates a date-time; fails where the date or the time of day does not exist.
    pub fn new(year: u16, month: u8, day: u8, hour: u8, minute: u8, second: u8) -> (res: Result<
        Self,
        Error,
    >)
        ensures
            ({
                let t = DateTimeModel {
                    year: year as int,
                    month: month as int,
                    day: day as int,
                    hour: hour as int,
                    minute: minute as int,
                    second: second as int,
                };
                &&& res is Ok <==> valid_date_time(t)
                &&& res matches Ok(r) ==> r@ == t
                &&& res matches Err(e) ==> e matches Error::InvalidFormat(m) && m@
                    == invalid_date_time_message(year, month, day, hour, minute, second)
            }),
    {
        if chrono_date_exists(year as i32, month as u32, day as u32) && chrono_time_exists(
            hour as u32,
            minute as u32,
            second as u32,
        ) {
            Ok(DateTime { year: year as i32, month, day, hour, minute, second })
        } else {
            Err(
                Error::InvalidFormat(
                    format_invalid_date_time(year, month, day, hour, minute, second),
                ),
            )
        }
    }

    /// Create a DateTime from a unix timestamp.
    ///
    /// Note that this uses the system timezone: the date-time shows the
    /// timestamp moved by that time zone's offset, which is less than a day.
    pub fn from_unix_timestamp(timestamp: u32) -> (res: Self)
        ensures
            valid_date_time(res@),
            timestamp - 86400 < epoch_seconds(res@) < timestamp + 86400,
    {
        let (year, month, day, hour, minute, second) = chrono_local_from_timestamp(timestamp);
        DateTime {
            year,
            month: month as u8,
            day: day as u8,
            hour: hour as u8,
            minute: minute as u8,
            second: second as u8,
        }
    }

    /// Returns the unix timestamp for this date-time, taken in the machine's
    /// time zone and cut to its low 32 bits; `None` where the date-time does
    /// not occur in that time zone or occurs twice. The timestamp is within a
    /// day of the seconds since 1970-01-01T00:00:00 that the date-time shows.
    pub fn unix_timestamp(&self) -> (res: Option<u32>)
        ensures
            res matches Some(r) ==> exists|t: i64|
                epoch_seconds(self@) - 86400 < t < epoch_seconds(self@) + 86400 && r == #[trigger] (
                t as u32),
    {
        proof {
            use_type_invariant(self);
        }
        match chrono_local_timestamp(
            self.year,
            self.month as u32,
            self.day as u32,
            self.hour as u32,
            self.minute as u32,
            self.second as u32,
        ) {
            Some(t) => Some(t as u32),
            None => None,
        }
    }

    /// Returns the year of this date-time, as the sixteen bits that fit a `u16`.
    pub fn year(&self) -> (res: u16)
        ensures
            res == year_u16(self@.year),
    {
        self.year as u16
    }

    /// Returns the month of this date-time.
    pub fn month(&self) -> (res: u8)
        ensures
            res == self@.month,
    {
        self.month
    }

    /// Returns the day of this date-time.
    pub fn day(&self) -> (res: u8)
        ensures
            res == self@.day,
    {
        self.day
    }

    /// Returns the weekday of this date-time, as a number from 0 (Monday) to 6 (Sunday).
    pub fn weekday(&self) -> (res: u8)
        ensures
            res == weekday_from_monday(self@.year, self@.month, self@.day),
    {
        proof {
            use_type_invariant(self);
        }
        chrono_weekday(self.year, self.month as u32, self.day as u32)
    }

    /// Returns the hour of this date-time.
    pub fn hour(&self) -> (res: u8)
        ensures
            res == self@.hour,
    {
        self.hour
    }

    /// Returns the minute of this date-time.
    pub fn minute(&self) -> (res: u8)
        ensures
            res == self@.minute,
    {
        self.minute
    }

    /// Returns the second of this date-time.
    pub fn second(&self) -> (res: u8)
        ensures
            res == self@.second,
    {
        self.second
    }

    /// Decodes a date-time from its BCD encoding; the weekday byte is not read.
    pub fn from_bytes(bytes: &[u8; 8]) -> (res: Result<Self, Error>)
        ensures
            ({
                let t = decode_date_time(bytes@);
                &&& res is Ok <==> valid_date_time(t)
                &&& res matches Ok(r) ==> r@ == t
                &&& res matches Err(e) ==> e matches Error::InvalidFormat(m) && m@
                    == invalid_date_time_message(
                    t.year as u16,
                    t.month as u8,
                    t.day as u8,
                    t.hour as u8,
                    t.minute as u8,
                    t.second as u8,
                )
            }),
    {
        let year: u16 = bcd_to_dec(bytes[0]) as u16 * 100 + bcd_to_dec(bytes[1]) as u16;
        let month = bcd_to_dec(bytes[2]);
        let day = bcd_to_dec(bytes[3]);

        let hour = bcd_to_dec(bytes[5]);
        let minute = bcd_to_dec(bytes[6]);
        let second = bcd_to_dec(bytes[7]);

        Self::new(year, month, day, hour, minute, second)
    }

    /// Encodes the date-time: century, year of the century, month and day in
    /// BCD, the weekday, then hour, minute and second in BCD.
    pub fn to_bytes(&self) -> (res: [u8; 8])
        requires
            bcd_encodable(self@.year),
        ensures
            res@ == date_time_bytes(self@, weekday_from_monday(self@.year, self@.month, self@.day)),
    {
        proof {
            use_type_invariant(self);
        }
        let year = self.year();
        [
            dec_to_bcd((year / 100) as u8),
            dec_to_bcd((year % 100) as u8),
            dec_to_bcd(self.month),
            dec_to_bcd(self.day),
            self.weekday(),
            dec_to_bcd(self.hour),
            dec_to_bcd(self.minute),
            dec_to_bcd(self.second),
        ]
    }

    /// Parses a date-time written as `%Y-%m-%dT%H:%M:%S`, as chrono reads it.
    pub fn parse_str(s: &str) -> (res: Result<Self, ()>)
        ensures
            res is Ok <==> chrono_parse_date_time(s@) is Some,
            res matches Ok(t) ==> ({
                let f = chrono_parse_date_time(s@)->0;
                t@ == (DateTimeModel {
                    year: f.0 as int,
                    month: f.1 as int,
                    day: f.2 as int,
                    hour: f.3 as int,
                    minute: f.4 as int,
                    second: f.5 as int,
                })
            }),
    {
        match chrono_parse_date_time_fields(s) {
            Some((year, month, day, hour, minute, second)) => Ok(
                DateTime {
                    year,
                    month: month as u8,
                    day: day as u8,
                    hour: hour as u8,
                    minute: minute as u8,
                    second: second as u8,
                },
            ),
            None => Err(()),
        }
    }
}

impl core::str::FromStr for DateTime {
    type Err = ();

    fn from_str(s: &str) -> (res: Result<Self, Self::Err>)
        ensures
            res is Ok <==> chrono_parse_date_time(s@) is Some,
            res matches Ok(t) ==> ({
                let f = chrono_parse_date_time(s@)->0;
                t@ == (DateTimeModel {
                    year: f.0 as int,
                    month: f.1 as int,
                    day: f.2 as int,
                    hour: f.3 as int,
                    minute: f.4 as int,
                    second: f.5 as int,
                })
            }),
    {
        DateTime::parse_str(s)
    }
}

/// Decoding the encoding of a date in the years 0 to 9999 gives it back,
/// whatever the weekday byte.
pub proof fn lemma_date_bytes_roundtrip(d: DateModel, weekday: int)
    requires
        valid_ymd(d.year, d.month, d.day),
        0 <= d.year <= 9999,
    ensures
        bcd_encodable(d.year),
        decode_date(date_bytes(d, weekday)) == d,
{
    let y = d.year;
    assert(year_u16(y) == y);
    assert((y as u16) / 100 < 100);
    lemma_bcd_roundtrip(((y as u16) / 100) as u8);
    lemma_bcd_roundtrip(((y as u16) % 100) as u8);
    lemma_bcd_roundtrip(d.month as u8);
    lemma_bcd_roundtrip(d.day as u8);
}

/// Decoding the encoding of a date-time in the years 0 to 9999 gives it
/// back, whatever the weekday byte.
pub proof fn lemma_date_time_bytes_roundtrip(t: DateTimeModel, weekday: int)
    requires
        valid_date_time(t),
        0 <= t.year <= 9999,
    ensures
        bcd_encodable(t.year),
        decode_date_time(date_time_bytes(t, weekday)) == t,
{
    let y = t.year;
    assert(year_u16(y) == y);
    assert((y as u16) / 100 < 100);
    lemma_bcd_roundtrip(((y as u16) / 100) as u8);
    lemma_bcd_roundtrip(((y as u16) % 100) as u8);
    lemma_bcd_roundtrip(t.month as u8);
    lemma_bcd_roundtrip(t.day as u8);
    lemma_bcd_roundtrip(t.hour as u8);
    lemma_bcd_roundtrip(t.minute as u8);
    lemma_bcd_roundtrip(t.second as u8);
}

/// Encoding the date-time that valid BCD bytes stand for gives these bytes
/// back, the weekday byte being the weekday of the date.
pub proof fn lemma_date_time_decode_roundtrip(b: Seq<u8>)
    requires
        b.len() == 8,
        is_bcd(b[0]) && is_bcd(b[1]) && is_bcd(b[2]) && is_bcd(b[3]),
        is_bcd(b[5]) && is_bcd(b[6]) && is_bcd(b[7]),
        valid_date_time(decode_date_time(b)),
        b[4] == weekday_from_monday(bcd_year(b[0], b[1]), bcd_value(b[2]), bcd_value(b[3])),
    ensures
        bcd_encodable(decode_date_time(b).year),
        date_time_bytes(decode_date_time(b), b[4] as int) == b,
{
    let t = decode_date_time(b);
    lemma_dec_roundtrip(b[0]);
    lemma_dec_roundtrip(b[1]);
    lemma_dec_roundtrip(b[2]);
    lemma_dec_roundtrip(b[3]);
    lemma_dec_roundtrip(b[5]);
    lemma_dec_roundtrip(b[6]);
    lemma_dec_roundtrip(b[7]);
    assert(year_u16(t.year) == t.year);
    assert((t.year as u16) / 100 == bcd_value(b[0]));
    assert((t.year as u16) % 100 == bcd_value(b[1]));
    assert(date_time_bytes(t, b[4] as int) =~= b);
}

} // verus!
