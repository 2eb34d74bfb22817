use vstd::prelude::*;

verus! {

/// A time of day as a switching program stores it: hours and minutes in
/// steps of ten.
#[derive(Debug, Clone, Copy, PartialEq, Eq, Structural)]
pub struct Time {
    pub hh: u8,
    pub mm: u8,
}

/// A switching period from one time to another.
#[derive(Debug, Clone, Copy, PartialEq, Eq, Structural)]
pub struct TimeSpan {
    pub from: Time,
    pub to: Time,
}

/// The time that a byte stands for: 0xFF marks no time, otherwise the five
/// high bits are the hour and the three low bits the tens of minutes.
pub open spec fn time_of_byte(byte: u8) -> Option<Time> {
    if byte == 0xff {
        None
    } else {
        Some(Time { hh: byte / 8, mm: ((byte % 8) * 10) as u8 })
    }
}

/// The byte of a time: the hour shifted by three bits, combined with the
/// tens of minutes.
pub open spec fn time_byte(t: Time) -> u8 {
    (t.hh << 3u8) | (t.mm / 10)
}

/// The times that a byte other than 0xFF can stand for.
pub open spec fn time_wf(t: Time) -> bool {
    t.hh < 32 && t.mm % 10 == 0 && t.mm <= 70 && !(t.hh == 31 && t.mm == 70)
}

impl Time {
    /// Reads a time from a byte; 0xFF means that there is none.
    pub fn from_byte(byte: u8) -> (res: Option<Self>)
        ensures
            res == time_of_byte(byte),
    {
        if byte == 0xff {
            None
        } else {
            let hh = byte / 8;
            let mm = (byte % 8) * 10;
            Some(Time { hh, mm })
        }
    }

    /// Writes the time as a byte.
    pub fn to_byte(&self) -> (res: u8)
        ensures
            res == time_byte(*self),
    {
        (self.hh << 3u8) | (self.mm / 10)
    }
}

/// Reading the time of a byte other than 0xFF and writing it gives the byte back.
pub proof fn lemma_time_byte_roundtrip(byte: u8)
    requires
        byte != 0xff,
    ensures
        time_of_byte(byte) matches Some(t) && time_wf(t) && time_byte(t) == byte,
{
    let hh: u8 = byte / 8;
    let mm: u8 = ((byte % 8) * 10) as u8;
    assert(((hh << 3u8) | (mm / 10)) == byte && hh < 32 && mm <= 70) by (bit_vector)
        requires
            hh == byte / 8,
            mm == (byte % 8) * 10,
    ;
    assert(mm % 10 == 0) by (bit_vector)
        requires
            mm == (byte % 8) * 10,
    ;
    assert(!(hh == 31 && mm == 70)) by (bit_vector)
        requires
            hh == byte / 8,
            mm == (byte % 8) * 10,
            byte != 0xff,
    ;
}

/// Writing a valid time and reading the byte gives the time back.
pub proof fn lemma_time_roundtrip(t: Time)
    requires
        time_wf(t),
    ensures
        time_byte(t) != 0xff,
        time_of_byte(time_byte(t)) == Some(t),
{
    let hh = t.hh;
    let mm = t.mm;
    let b = (hh << 3u8) | (mm / 10);
    assert(b / 8 == hh && (b % 8) * 10 == mm && b != 0xff) by (bit_vector)
        requires
            b == (hh << 3u8) | (mm / 10),
            hh < 32,
            mm % 10 == 0,
            mm <= 70,
            !(hh == 31 && mm == 70),
    ;
}

impl TimeSpan {
    /// Writes the span as the bytes of its two times.
    pub fn to_bytes(&self) -> (res: [u8; 2])
        ensures
            res@ == seq![time_byte(self.from), time_byte(self.to)],
    {
        [self.from.to_byte(), self.to.to_byte()]
    }
}

/// The span that two bytes stand for: one only where both hold a time.
pub open spec fn span_of_bytes(a: u8, b: u8) -> Option<TimeSpan> {
    match (time_of_byte(a), time_of_byte(b)) {
        (Some(from), Some(to)) => Some(TimeSpan { from, to }),
        _ => None,
    }
}

/// The two bytes of a span, or 0xFF twice where there is none.
pub open spec fn span_bytes(s: Option<TimeSpan>) -> Seq<u8> {
    match s {
        Some(t) => seq![time_byte(t.from), time_byte(t.to)],
        None => seq![0xffu8, 0xffu8],
    }
}

/// Spans whose bytes read back as the same span.
pub open spec fn span_wf(s: Option<TimeSpan>) -> bool {
    match s {
        Some(t) => time_wf(t.from) && time_wf(t.to),
        None => true,
    }
}

/// Pairs of bytes that hold either two times or none.
pub open spec fn pair_consistent(a: u8, b: u8) -> bool {
    (a == 0xff) == (b == 0xff)
}

fn span_from_bytes(a: u8, b: u8) -> (res: Option<TimeSpan>)
    ensures
        res == span_of_bytes(a, b),
{
    match (Time::from_byte(a), Time::from_byte(b)) {
        (Some(from), Some(to)) => Some(TimeSpan { from, to }),
        _ => None,
    }
}

fn span_to_bytes(s: Option<TimeSpan>) -> (res: [u8; 2])
    ensures
        res@ == span_bytes(s),
{
    match s {
        Some(t) => t.to_bytes(),
        None => [0xff, 0xff],
    }
}

/// The switching program of one day: up to four periods.
#[derive(Debug, Clone, Copy, PartialEq, Eq)]
pub struct CircuitTime(pub [Option<TimeSpan>; 4]);

/// The program of a day that eight bytes stand for.
pub open spec fn circuit_time_of_bytes(b: Seq<u8>) -> Seq<Option<TimeSpan>> {
    seq![
        span_of_bytes(b[0], b[1]),
        span_of_bytes(b[2], b[3]),
        span_of_bytes(b[4], b[5]),
        span_of_bytes(b[6], b[7]),
    ]
}

/// The eight bytes of the program of a day.
pub open spec fn circuit_time_bytes(c: Seq<Option<TimeSpan>>) -> Seq<u8> {
    span_bytes(c[0]) + span_bytes(c[1]) + span_bytes(c[2]) + span_bytes(c[3])
}

impl CircuitTime {
    /// Reads the program of a day from the first eight bytes.
    pub fn from_bytes(bytes: &[u8]) -> (res: Self)
        requires
            bytes@.len() >= 8,
        ensures
            res.0@ == circuit_time_of_bytes(bytes@),
    {
        let res = CircuitTime(
            [
                span_from_bytes(bytes[0], bytes[1]),
                span_from_bytes(bytes[2], bytes[3]),
                span_from_bytes(bytes[4], bytes[5]),
                span_from_bytes(bytes[6], bytes[7]),
            ],
        );
        assert(res.0@ =~= circuit_time_of_bytes(bytes@));
        res
    }

    /// Writes the program of a day as eight bytes.
    pub fn to_bytes(&self) -> (res: [u8; 8])
        ensures
            res@ == circuit_time_bytes(self.0@),
    {
        let timespan1 = span_to_bytes(self.0[0]);
        let timespan2 = span_to_bytes(self.0[1]);
        let timespan3 = span_to_bytes(self.0[2]);
        let timespan4 = span_to_bytes(self.0[3]);

        let res = [
            timespan1[0],
            timespan1[1],
            timespan2[0],
            timespan2[1],
            timespan3[0],
            timespan3[1],
            timespan4[0],
            timespan4[1],
        ];
        assert(res@ =~= circuit_time_bytes(self.0@));
        res
    }
}

proof fn lemma_span_roundtrip(s: Option<TimeSpan>)
    requires
        span_wf(s),
    ensures
        span_bytes(s).len() == 2,
        span_of_bytes(span_bytes(s)[0], span_bytes(s)[1]) == s,
{
    if let Some(t) = s {
        lemma_time_roundtrip(t.from);
        lemma_time_roundtrip(t.to);
    }
}

proof fn lemma_span_bytes_roundtrip(a: u8, b: u8)
    requires
        pair_consistent(a, b),
    ensures
        span_bytes(span_of_bytes(a, b)) == seq![a, b],
{
    if a != 0xff {
        lemma_time_byte_roundtrip(a);
        lemma_time_byte_roundtrip(b);
    }
    assert(span_bytes(span_of_bytes(a, b)) =~= seq![a, b]);
}

/// Reading back the bytes of a day's program gives the program back, where
/// each of its times has a byte.
pub proof fn lemma_circuit_time_roundtrip(c: Seq<Option<TimeSpan>>)
    requires
        c.len() == 4,
        forall|i: int| 0 <= i < 4 ==> span_wf(#[trigger] c[i]),
    ensures
        circuit_time_bytes(c).len() == 8,
        circuit_time_of_bytes(circuit_time_bytes(c)) == c,
{
    assert(span_wf(c[0]) && span_wf(c[1]) && span_wf(c[2]) && span_wf(c[3]));
    lemma_span_roundtrip(c[0]);
    lemma_span_roundtrip(c[1]);
    lemma_span_roundtrip(c[2]);
    lemma_span_roundtrip(c[3]);
    let b = circuit_time_bytes(c);
    assert(b[0] == span_bytes(c[0])[0] && b[1] == span_bytes(c[0])[1]);
    assert(b[2] == span_bytes(c[1])[0] && b[3] == span_bytes(c[1])[1]);
    assert(b[4] == span_bytes(c[2])[0] && b[5] == span_bytes(c[2])[1]);
    assert(b[6] == span_bytes(c[3])[0] && b[7] == span_bytes(c[3])[1]);
    assert(circuit_time_of_bytes(b) =~= c);
}

/// Writing the program read from eight bytes gives the bytes back, where
/// each pair of bytes holds two times or none.
pub proof fn lemma_circuit_time_bytes_roundtrip(b: Seq<u8>)
    requires
        b.len() == 8,
        pair_consistent(b[0], b[1]),
        pair_consistent(b[2], b[3]),
        pair_consistent(b[4], b[5]),
        pair_consistent(b[6], b[7]),
    ensures
        circuit_time_bytes(circuit_time_of_bytes(b)) == b,
{
    lemma_span_bytes_roundtrip(b[0], b[1]);
    lemma_span_bytes_roundtrip(b[2], b[3]);
    lemma_span_bytes_roundtrip(b[4], b[5]);
    lemma_span_bytes_roundtrip(b[6], b[7]);
    assert(circuit_time_bytes(circuit_time_of_bytes(b)) =~= b);
}

/// The switching programs of a week, Monday first.
#[derive(Debug, Clone, Copy, PartialEq, Eq)]
pub struct CircuitTimes {
    pub mon: CircuitTime,
    pub tue: CircuitTime,
    pub wed: CircuitTime,
    pub thu: CircuitTime,
    pub fri: CircuitTime,
    pub sat: CircuitTime,
    pub sun: CircuitTime,
}

/// The days of a week in order, Monday first.
pub open spec fn week_days(c: CircuitTimes) -> Seq<CircuitTime> {
    seq![c.mon, c.tue, c.wed, c.thu, c.fri, c.sat, c.sun]
}

/// The 56 bytes of a week: eight for each day, Monday first.
pub open spec fn circuit_times_bytes(c: CircuitTimes) -> Seq<u8> {
    circuit_time_bytes(c.mon.0@) + circuit_time_bytes(c.tue.0@) + circuit_time_bytes(c.wed.0@)
        + circuit_time_bytes(c.thu.0@) + circuit_time_bytes(c.fri.0@) + circuit_time_bytes(
        c.sat.0@,
    ) + circuit_time_bytes(c.sun.0@)
}

impl CircuitTimes {
    /// Reads the programs of a week from the first 56 bytes, eight per day.
    pub fn from_bytes(bytes: &[u8]) -> (res: Self)
        requires
            bytes@.len() >= 56,
        ensures
            forall|d: int|
                0 <= d < 7 ==> (#[trigger] week_days(res)[d]).0@ == circuit_time_of_bytes(
                    bytes@.subrange(8 * d, 8 * d + 8),
                ),
            circuit_times_bytes(res) == reencoded_week(bytes@),
    {
        let res = CircuitTimes {
            mon: CircuitTime::from_bytes(&bytes[0..8]),
            tue: CircuitTime::from_bytes(&bytes[8..16]),
            wed: CircuitTime::from_bytes(&bytes[16..24]),
            thu: CircuitTime::from_bytes(&bytes[24..32]),
            fri: CircuitTime::from_bytes(&bytes[32..40]),
            sat: CircuitTime::from_bytes(&bytes[40..48]),
            sun: CircuitTime::from_bytes(&bytes[48..56]),
        };
        assert forall|d: int| 0 <= d < 7 implies (#[trigger] week_days(res)[d]).0@
            == circuit_time_of_bytes(bytes@.subrange(8 * d, 8 * d + 8)) by {
            if d == 0 {
            } else if d == 1 {
            } else if d == 2 {
            } else if d == 3 {
            } else if d == 4 {
            } else if d == 5 {
            } else {
            }
        }
        proof {
            lemma_week_read_bytes(bytes@, res);
        }
        res
    }

    /// Writes the programs of a week as 56 bytes.
    pub fn to_bytes(&self) -> (res: [u8; 56])
        ensures
            res@ == circuit_times_bytes(*self),
    {
        let mon = self.mon.to_bytes();
        let tue = self.tue.to_bytes();
        let wed = self.wed.to_bytes();
        let thu = self.thu.to_bytes();
        let fri = self.fri.to_bytes();
        let sat = self.sat.to_bytes();
        let sun = self.sun.to_bytes();

        let res = [
            mon[0], mon[1], mon[2], mon[3], mon[4], mon[5], mon[6], mon[7],
            tue[0], tue[1], tue[2], tue[3], tue[4], tue[5], tue[6], tue[7],
            wed[0], wed[1], wed[2], wed[3], wed[4], wed[5], wed[6], wed[7],
            thu[0], thu[1], thu[2], thu[3], thu[4], thu[5], thu[6], thu[7],
            fri[0], fri[1], fri[2], fri[3], fri[4], fri[5], fri[6], fri[7],
            sat[0], sat[1], sat[2], sat[3], sat[4], sat[5], sat[6], sat[7],
            sun[0], sun[1], sun[2], sun[3], sun[4], sun[5], sun[6], sun[7],
        ];
        assert(res@ =~= circuit_times_bytes(*self));
        res
    }
}

proof fn lemma_circuit_time_bytes_len(c: Seq<Option<TimeSpan>>)
    requires
        c.len() == 4,
    ensures
        circuit_time_bytes(c).len() == 8,
{
}

proof fn lemma_week_bytes_day(c: CircuitTimes, d: int)
    requires
        0 <= d < 7,
    ensures
        circuit_times_bytes(c).len() == 56,
        circuit_times_bytes(c).subrange(8 * d, 8 * d + 8) == circuit_time_bytes(week_days(c)[d].0@),
{
    lemma_circuit_time_bytes_len(c.mon.0@);
    lemma_circuit_time_bytes_len(c.tue.0@);
    lemma_circuit_time_bytes_len(c.wed.0@);
    lemma_circuit_time_bytes_len(c.thu.0@);
    lemma_circuit_time_bytes_len(c.fri.0@);
    lemma_circuit_time_bytes_len(c.sat.0@);
    lemma_circuit_time_bytes_len(c.sun.0@);
    assert(circuit_times_bytes(c).subrange(8 * d, 8 * d + 8) =~= circuit_time_bytes(
        week_days(c)[d].0@,
    ));
}

/// Reading back the 56 bytes of a week gives each day's program back, where
/// each of its times has a byte.
pub proof fn lemma_circuit_times_roundtrip(c: CircuitTimes)
    requires
        forall|d: int, i: int| 0 <= d < 7 && 0 <= i < 4 ==> span_wf(#[trigger] week_days(c)[d].0@[i]),
    ensures
        circuit_times_bytes(c).len() == 56,
        forall|d: int|
            0 <= d < 7 ==> circuit_time_of_bytes(circuit_times_bytes(c).subrange(8 * d, 8 * d + 8))
                == (#[trigger] week_days(c)[d]).0@,
{
    lemma_week_bytes_day(c, 0);
    assert forall|d: int| 0 <= d < 7 implies circuit_time_of_bytes(
        circuit_times_bytes(c).subrange(8 * d, 8 * d + 8),
    ) == (#[trigger] week_days(c)[d]).0@ by {
        lemma_week_bytes_day(c, d);
        let day = week_days(c)[d].0@;
        assert forall|i: int| 0 <= i < 4 implies span_wf(#[trigger] day[i]) by {
            assert(span_wf(week_days(c)[d].0@[i]));
        }
        lemma_circuit_time_roundtrip(day);
    }
}

/// Writing the week read from 56 bytes gives the bytes back, where each pair
/// of bytes holds two times or none.
pub proof fn lemma_circuit_times_bytes_roundtrip(b: Seq<u8>, c: CircuitTimes)
    requires
        b.len() == 56,
        forall|i: int| 0 <= i < 28 ==> pair_consistent(#[trigger] b[2 * i], b[2 * i + 1]),
        forall|d: int|
            0 <= d < 7 ==> (#[trigger] week_days(c)[d]).0@ == circuit_time_of_bytes(
                b.subrange(8 * d, 8 * d + 8),
            ),
    ensures
        circuit_times_bytes(c) == b,
{
    assert forall|d: int| 0 <= d < 7 implies circuit_time_bytes((#[trigger] week_days(c)[d]).0@)
        == b.subrange(8 * d, 8 * d + 8) by {
        let s = b.subrange(8 * d, 8 * d + 8);
        assert(pair_consistent(b[2 * (4 * d)], b[2 * (4 * d) + 1]));
        assert(pair_consistent(b[2 * (4 * d + 1)], b[2 * (4 * d + 1) + 1]));
        assert(pair_consistent(b[2 * (4 * d + 2)], b[2 * (4 * d + 2) + 1]));
        assert(pair_consistent(b[2 * (4 * d + 3)], b[2 * (4 * d + 3) + 1]));
        lemma_circuit_time_bytes_roundtrip(s);
    }
    assert forall|d: int| 0 <= d < 7 implies #[trigger] circuit_times_bytes(c).subrange(8 * d, 8 * d + 8)
        == b.subrange(8 * d, 8 * d + 8) by {
        lemma_week_bytes_day(c, d);
        assert(circuit_time_bytes((week_days(c)[d]).0@) == b.subrange(8 * d, 8 * d + 8));
    }
    lemma_week_bytes_day(c, 0);
    assert forall|i: int| 0 <= i < 56 implies circuit_times_bytes(c)[i] == b[i] by {
        let d = i / 8;
        assert(circuit_times_bytes(c).subrange(8 * d, 8 * d + 8)[i - 8 * d] == b.subrange(
            8 * d,
            8 * d + 8,
        )[i - 8 * d]);
    }
    assert(circuit_times_bytes(c) =~= b);
}

} // verus!

verus! {

proof fn lemma_read_time_wf(byte: u8)
    requires
        byte != 0xff,
    ensures
        time_wf(time_of_byte(byte)->0),
{
    assert(byte / 8 < 32);
    assert((byte % 8) * 10 % 10 == 0);
    assert(byte / 8 == 31 && byte % 8 == 7 ==> byte == 255);
}

proof fn lemma_read_span_wf(x: u8, y: u8)
    ensures
        span_wf(span_of_bytes(x, y)),
{
    if x != 0xff && y != 0xff {
        lemma_read_time_wf(x);
        lemma_read_time_wf(y);
    }
}

/// The program read from eight bytes reads back from its own bytes.
proof fn lemma_day_settle(x: Seq<u8>)
    requires
        x.len() == 8,
    ensures
        circuit_time_of_bytes(circuit_time_bytes(circuit_time_of_bytes(x))) == circuit_time_of_bytes(x),
{
    let day = circuit_time_of_bytes(x);
    lemma_read_span_wf(x[0], x[1]);
    lemma_read_span_wf(x[2], x[3]);
    lemma_read_span_wf(x[4], x[5]);
    lemma_read_span_wf(x[6], x[7]);
    assert forall|i: int| 0 <= i < 4 implies span_wf(#[trigger] day[i]) by {
        if i == 0 {
        } else if i == 1 {
        } else if i == 2 {
        } else {
        }
    }
    lemma_circuit_time_roundtrip(day);
}

/// Weeks with the same program on each day have the same bytes.
proof fn lemma_same_days_same_bytes(c: CircuitTimes, e: CircuitTimes)
    requires
        forall|d: int| 0 <= d < 7 ==> (#[trigger] week_days(e)[d]).0@ == week_days(c)[d].0@,
    ensures
        circuit_times_bytes(e) == circuit_times_bytes(c),
{
    assert(week_days(e)[0] == e.mon && week_days(c)[0] == c.mon);
    assert(week_days(e)[1] == e.tue && week_days(c)[1] == c.tue);
    assert(week_days(e)[2] == e.wed && week_days(c)[2] == c.wed);
    assert(week_days(e)[3] == e.thu && week_days(c)[3] == c.thu);
    assert(week_days(e)[4] == e.fri && week_days(c)[4] == c.fri);
    assert(week_days(e)[5] == e.sat && week_days(c)[5] == c.sat);
    assert(week_days(e)[6] == e.sun && week_days(c)[6] == c.sun);
}

/// The 56 bytes that reading a week from `b` and writing it gives: for each
/// day, the bytes of the program that its eight bytes stand for.
pub open spec fn reencoded_week(b: Seq<u8>) -> Seq<u8> {
    Seq::new(
        56,
        |i: int| circuit_time_bytes(circuit_time_of_bytes(b.subrange(8 * (i / 8), 8 * (i / 8) + 8)))[i
            % 8],
    )
}

proof fn lemma_day_bytes_len(x: Seq<u8>)
    requires
        x.len() == 8,
    ensures
        circuit_time_bytes(circuit_time_of_bytes(x)).len() == 8,
{
    lemma_circuit_time_bytes_len(circuit_time_of_bytes(x));
}

/// The bytes of day `d` of a re-encoded week are those of the program that
/// the day's eight bytes stand for: what reading and writing that day alone
/// gives.
pub proof fn lemma_reencoded_day(b: Seq<u8>, d: int)
    requires
        b.len() >= 56,
        0 <= d < 7,
    ensures
        reencoded_week(b).subrange(8 * d, 8 * d + 8) == circuit_time_bytes(
            circuit_time_of_bytes(b.subrange(8 * d, 8 * d + 8)),
        ),
{
    let x = b.subrange(8 * d, 8 * d + 8);
    lemma_day_bytes_len(x);
    assert forall|j: int| 0 <= j < 8 implies reencoded_week(b).subrange(8 * d, 8 * d + 8)[j]
        == circuit_time_bytes(circuit_time_of_bytes(x))[j] by {
        let i = 8 * d + j;
        assert(i / 8 == d);
        assert(i % 8 == j);
    }
    assert(reencoded_week(b).subrange(8 * d, 8 * d + 8) =~= circuit_time_bytes(
        circuit_time_of_bytes(x),
    ));
}

/// The bytes of a week read from `b` are the re-encoded bytes of `b`.
proof fn lemma_week_read_bytes(b: Seq<u8>, c: CircuitTimes)
    requires
        b.len() >= 56,
        forall|d: int|
            0 <= d < 7 ==> (#[trigger] week_days(c)[d]).0@ == circuit_time_of_bytes(
                b.subrange(8 * d, 8 * d + 8),
            ),
    ensures
        circuit_times_bytes(c) == reencoded_week(b),
{
    lemma_week_bytes_day(c, 0);
    assert forall|i: int| 0 <= i < 56 implies circuit_times_bytes(c)[i] == reencoded_week(b)[i] by {
        let d = i / 8;
        lemma_week_bytes_day(c, d);
        lemma_reencoded_day(b, d);
        assert(week_days(c)[d].0@ == circuit_time_of_bytes(b.subrange(8 * d, 8 * d + 8)));
        assert(circuit_times_bytes(c).subrange(8 * d, 8 * d + 8)[i % 8] == circuit_times_bytes(c)[i]);
        assert(reencoded_week(b).subrange(8 * d, 8 * d + 8)[i % 8] == reencoded_week(b)[i]);
    }
    assert(circuit_times_bytes(c) =~= reencoded_week(b));
}

/// Re-encoding a re-encoded week gives the same bytes: once read and written,
/// the bytes of a week no longer change.
pub proof fn lemma_reencoded_week_idempotent(b: Seq<u8>)
    requires
        b.len() >= 56,
    ensures
        reencoded_week(reencoded_week(b)) == reencoded_week(b),
{
    let r = reencoded_week(b);
    assert forall|i: int| 0 <= i < 56 implies reencoded_week(r)[i] == r[i] by {
        let d = i / 8;
        lemma_reencoded_day(b, d);
        lemma_day_settle(b.subrange(8 * d, 8 * d + 8));
        assert(r.subrange(8 * d, 8 * d + 8)[i % 8] == r[i]);
    }
    assert(reencoded_week(r) =~= r);
}

/// Writing the programs read from 56 bytes gives, for each day, the bytes of
/// the program that its eight bytes stand for; and reading these bytes again
/// and writing them gives the same bytes.
pub proof fn lemma_circuit_times_bytes_settle(b: Seq<u8>, c: CircuitTimes, again: CircuitTimes)
    requires
        b.len() >= 56,
        forall|d: int|
            0 <= d < 7 ==> (#[trigger] week_days(c)[d]).0@ == circuit_time_of_bytes(
                b.subrange(8 * d, 8 * d + 8),
            ),
        forall|d: int|
            0 <= d < 7 ==> (#[trigger] week_days(again)[d]).0@ == circuit_time_of_bytes(
                circuit_times_bytes(c).subrange(8 * d, 8 * d + 8),
            ),
    ensures
        forall|d: int|
            0 <= d < 7 ==> #[trigger] circuit_times_bytes(c).subrange(8 * d, 8 * d + 8)
                == circuit_time_bytes(circuit_time_of_bytes(b.subrange(8 * d, 8 * d + 8))),
        circuit_times_bytes(again) == circuit_times_bytes(c),
{
    assert forall|d: int|
        0 <= d < 7 implies #[trigger] circuit_times_bytes(c).subrange(8 * d, 8 * d + 8)
        == circuit_time_bytes(circuit_time_of_bytes(b.subrange(8 * d, 8 * d + 8))) by {
        lemma_week_bytes_day(c, d);
        assert(week_days(c)[d].0@ == circuit_time_of_bytes(b.subrange(8 * d, 8 * d + 8)));
    }
    assert forall|d: int| 0 <= d < 7 implies (#[trigger] week_days(again)[d]).0@ == week_days(c)[d].0@ by {
        lemma_week_bytes_day(c, d);
        lemma_day_settle(b.subrange(8 * d, 8 * d + 8));
    }
    lemma_same_days_same_bytes(c, again);
}

} // verus!
