use vstd::prelude::*;

verus! {

/// The character of a decimal digit.
pub open spec fn digit_char(d: int) -> char {
    (48 + d) as char
}

/// A number below 256 written in decimal with at least two digits.
pub open spec fn two_digit_text(n: u8) -> Seq<char> {
    if n >= 100 {
        seq![digit_char((n / 100) as int), digit_char(((n / 10) % 10) as int), digit_char((n % 10) as int)]
    } else {
        seq![digit_char((n / 10) as int), digit_char((n % 10) as int)]
    }
}

fn digit_str(d: u8) -> (res: &'static str)
    requires
        d < 10,
    ensures
        res@ == seq![digit_char(d as int)],
{
    if d == 0 {
        proof {
            reveal_strlit("0");
        }
        "0"
    } else if d == 1 {
        proof {
            reveal_strlit("1");
        }
        "1"
    } else if d == 2 {
        proof {
            reveal_strlit("2");
        }
        "2"
    } else if d == 3 {
        proof {
            reveal_strlit("3");
        }
        "3"
    } else if d == 4 {
        proof {
            reveal_strlit("4");
        }
        "4"
    } else if d == 5 {
        proof {
            reveal_strlit("5");
        }
        "5"
    } else if d == 6 {
        proof {
            reveal_strlit("6");
        }
        "6"
    } else if d == 7 {
        proof {
            reveal_strlit("7");
        }
        "7"
    } else if d == 8 {
        proof {
            reveal_strlit("8");
        }
        "8"
    } else {
        proof {
            reveal_strlit("9");
        }
        "9"
    }
}

/// Writes a number in decimal with at least two digits, as `{:02}` does.
pub fn two_digits(n: u8) -> (res: String)
    ensures
        res@ == two_digit_text(n),
{
    if n >= 100 {
        let mut s = String::from_str(digit_str(n / 100));
        s.append(digit_str((n / 10) % 10));
        s.append(digit_str(n % 10));
        s
    } else {
        let mut s = String::from_str(digit_str(n / 10));
        s.append(digit_str(n % 10));
        s
    }
}

/// A time of day as text: two-digit hours and minutes, or dashes where
/// there is no time.
#[derive(Clone)]
pub struct Time {
    pub hh: String,
    pub mm: String,
}

/// A switching period as text.
#[derive(Clone)]
pub struct TimeSpan {
    pub from: Time,
    pub to: Time,
}

/// The texts of hour and minute of a time, or two dashes each where there is none.
pub open spec fn time_text(t: Option<(u8, u8)>) -> (Seq<char>, Seq<char>) {
    match t {
        Some((hh, mm)) => (two_digit_text(hh), two_digit_text(mm)),
        None => (seq!['-', '-'], seq!['-', '-']),
    }
}

impl Time {
    /// Writes hour and minute with two digits each, or dashes where there is no time.
    pub fn from_hours_minutes(tuple: Option<(u8, u8)>) -> (res: Self)
        ensures
            (res.hh@, res.mm@) == time_text(tuple),
    {
        if let Some((hh, mm)) = tuple {
            Time { hh: two_digits(hh), mm: two_digits(mm) }
        } else {
            proof {
                reveal_strlit("--");
            }
            Time { hh: String::from_str("--"), mm: String::from_str("--") }
        }
    }
}

/// The time that a byte of a switching program stands for, as hour and
/// minute: none for 0xFF, otherwise the five high bits are the hour and the
/// three low bits the tens of minutes.
pub open spec fn byte_time(byte: u8) -> Option<(u8, u8)> {
    if byte == 0xff {
        None
    } else {
        Some((byte / 8, ((byte % 8) * 10) as u8))
    }
}

/// The switching program of one day, kept as its eight bytes.
#[derive(Clone)]
pub struct CycleTime(pub [u8; 8]);

impl CycleTime {
    /// The time that byte `i` of the program stands for.
    pub fn byte_to_time(&self, i: usize) -> (res: Option<(u8, u8)>)
        requires
            i < 8,
        ensures
            res == byte_time(self.0@[i as int]),
    {
        match self.0[i] {
            0xff => None,
            byte => Some((byte / 8, (byte % 8) * 10)),
        }
    }

    /// The four periods of the program as text.
    pub fn times(&self) -> (res: [TimeSpan; 4])
        ensures
            forall|k: int|
                0 <= k < 4 ==> (#[trigger] res@[k].from.hh@, res@[k].from.mm@) == time_text(
                    byte_time(self.0@[2 * k]),
                ) && (res@[k].to.hh@, res@[k].to.mm@) == time_text(byte_time(self.0@[2 * k + 1])),
    {
        let res = [
            TimeSpan {
                from: Time::from_hours_minutes(self.byte_to_time(0)),
                to: Time::from_hours_minutes(self.byte_to_time(1)),
            },
            TimeSpan {
                from: Time::from_hours_minutes(self.byte_to_time(2)),
                to: Time::from_hours_minutes(self.byte_to_time(3)),
            },
            TimeSpan {
                from: Time::from_hours_minutes(self.byte_to_time(4)),
                to: Time::from_hours_minutes(self.byte_to_time(5)),
            },
            TimeSpan {
                from: Time::from_hours_minutes(self.byte_to_time(6)),
                to: Time::from_hours_minutes(self.byte_to_time(7)),
            },
        ];
        assert forall|k: int| 0 <= k < 4 implies (#[trigger] res@[k].from.hh@, res@[k].from.mm@)
            == time_text(byte_time(self.0@[2 * k])) && (res@[k].to.hh@, res@[k].to.mm@) == time_text(
            byte_time(self.0@[2 * k + 1]),
        ) by {
            if k == 0 {
            } else if k == 1 {
            } else if k == 2 {
            } else {
            }
        }
        res
    }

    /// Takes the first eight bytes as the program of a day.
    pub fn from_bytes(bytes: &[u8]) -> (res: Self)
        requires
            bytes@.len() >= 8,
        ensures
            res.0@ == bytes@.subrange(0, 8),
    {
        let res = CycleTime(
            [bytes[0], bytes[1], bytes[2], bytes[3], bytes[4], bytes[5], bytes[6], bytes[7]],
        );
        assert(res.0@ =~= bytes@.subrange(0, 8));
        res
    }

    /// The eight bytes of the program.
    pub fn to_bytes(&self) -> (res: [u8; 8])
        ensures
            res@ == self.0@,
    {
        self.0
    }
}

/// The switching programs of a week, Monday first.
#[derive(Clone)]
pub struct CycleTimes {
    pub mon: CycleTime,
    pub tue: CycleTime,
    pub wed: CycleTime,
    pub thu: CycleTime,
    pub fri: CycleTime,
    pub sat: CycleTime,
    pub sun: CycleTime,
}

/// The 56 bytes of a week, eight per day, Monday first.
pub open spec fn cycle_times_bytes(c: CycleTimes) -> Seq<u8> {
    c.mon.0@ + c.tue.0@ + c.wed.0@ + c.thu.0@ + c.fri.0@ + c.sat.0@ + c.sun.0@
}

impl CycleTimes {
    /// Reads the programs of a week from the first 56 bytes, eight per day.
    pub fn from_bytes(bytes: &[u8]) -> (res: Self)
        requires
            bytes@.len() >= 56,
        ensures
            cycle_times_bytes(res) == bytes@.subrange(0, 56),
    {
        let res = CycleTimes {
            mon: CycleTime::from_bytes(&bytes[0..8]),
            tue: CycleTime::from_bytes(&bytes[8..16]),
            wed: CycleTime::from_bytes(&bytes[16..24]),
            thu: CycleTime::from_bytes(&bytes[24..32]),
            fri: CycleTime::from_bytes(&bytes[32..40]),
            sat: CycleTime::from_bytes(&bytes[40..48]),
            sun: CycleTime::from_bytes(&bytes[48..56]),
        };
        assert(cycle_times_bytes(res) =~= bytes@.subrange(0, 56));
        res
    }

    /// Writes the programs of a week as 56 bytes.
    pub fn to_bytes(&self) -> (res: [u8; 56])
        ensures
            res@ == cycle_times_bytes(*self),
    {
        let mon = self.mon.to_bytes();
        let tue = self.tue.to_bytes();
        let wed = self.wed.to_bytes();
        let thu = self.thu.to_bytes();
        let fri = self.fri.to_bytes();
        let sat = self.sat.to_bytes();
        let sun = self.sun.to_bytes();

        let res = [
            mon[0], mon[1], mon[2], mon[3], mon[4], mon[5], mon[6], mon[7],
            tue[0], tue[1], tue[2], tue[3], tue[4], tue[5], tue[6], tue[7],
            wed[0], wed[1], wed[2], wed[3], wed[4], wed[5], wed[6], wed[7],
            thu[0], thu[1], thu[2], thu[3], thu[4], thu[5], thu[6], thu[7],
            fri[0], fri[1], fri[2], fri[3], fri[4], fri[5], fri[6], fri[7],
            sat[0], sat[1], sat[2], sat[3], sat[4], sat[5], sat[6], sat[7],
            sun[0], sun[1], sun[2], sun[3], sun[4], sun[5], sun[6], sun[7],
        ];
        assert(res@ =~= cycle_times_bytes(*self));
        res
    }
}

/// The encoding of a week always has 56 bytes.
pub proof fn lemma_cycle_times_bytes_len(c: CycleTimes)
    ensures
        cycle_times_bytes(c).len() == 56,
{
}

} // verus!
