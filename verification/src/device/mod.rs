use vstd::prelude::*;

pub mod device_id;

use self::device_id::{DeviceId, DeviceIdF0, DeviceIdRange};
use crate::command::Command;
use crate::text::str_eq;

verus! {

/// Representation of a heating system device: its name, its commands by
/// name and the texts of its error codes.
#[derive(Debug)]
pub struct Device {
    pub name: &'static str,
    pub commands: &'static [(&'static str, Command)],
    pub errors: &'static [(i32, &'static str)],
}

/// The position of the first entry whose name is `name`, if any.
pub open spec fn first_named(entries: Seq<(&'static str, Command)>, name: Seq<char>) -> Option<int> {
    if exists|i: int| 0 <= i < entries.len() && (#[trigger] entries[i]).0@ == name {
        Some(
            choose|i: int|
                0 <= i < entries.len() && (#[trigger] entries[i]).0@ == name && forall|j: int|
                    0 <= j < i ==> (#[trigger] entries[j]).0@ != name,
        )
    } else {
        None
    }
}

/// The position of the first entry for an error code, if any.
pub open spec fn first_code(entries: Seq<(i32, &'static str)>, code: i32) -> Option<int> {
    if exists|i: int| 0 <= i < entries.len() && (#[trigger] entries[i]).0 == code {
        Some(
            choose|i: int|
                0 <= i < entries.len() && (#[trigger] entries[i]).0 == code && forall|j: int|
                    0 <= j < i ==> (#[trigger] entries[j]).0 != code,
        )
    } else {
        None
    }
}

// ---------------------------------------------------------------------------
// Detection
// ---------------------------------------------------------------------------

/// Kinds of match between an identifier range and a device identifier.
pub open spec fn range_matches(kind: int, r: DeviceIdRange, id: DeviceId, f0: u16) -> bool {
    &&& r.id == id.id
    &&& if kind == 0 {
        r.f0 == Some(f0)
    } else if kind == 1 {
        r.f0 matches Some(lo) && r.f0_till matches Some(hi) && lo <= f0 <= hi
    } else if kind == 2 {
        r.hardware_index == Some(id.hardware_index) && r.software_index == Some(id.software_index)
    } else {
        true
    }
}

/// `i` is the first position whose range matches in the given way.
pub open spec fn is_first_match(
    ranges: Seq<DeviceIdRange>,
    i: int,
    kind: int,
    id: DeviceId,
    f0: u16,
) -> bool {
    &&& 0 <= i < ranges.len()
    &&& range_matches(kind, ranges[i], id, f0)
    &&& forall|j: int| 0 <= j < i ==> !range_matches(kind, #[trigger] ranges[j], id, f0)
}

/// `i` is the last position whose range has the device's id.
pub open spec fn is_last_match(ranges: Seq<DeviceIdRange>, i: int, id: DeviceId) -> bool {
    &&& 0 <= i < ranges.len()
    &&& ranges[i].id == id.id
    &&& forall|j: int| i < j < ranges.len() ==> (#[trigger] ranges[j]).id != id.id
}

/// Whether some position's range matches in the given way.
pub open spec fn some_match(ranges: Seq<DeviceIdRange>, kind: int, id: DeviceId, f0: u16) -> bool {
    exists|i: int| 0 <= i < ranges.len() && range_matches(kind, #[trigger] ranges[i], id, f0)
}

/// Devices whose F0 identifier decides: ids 192 to 203 with software index
/// 200 and above.
pub open spec fn f0_decides(id: DeviceId, f0: Option<DeviceIdF0>) -> bool {
    f0 is Some && 192 <= id.id <= 203 && id.software_index >= 200
}

/// The position that detection picks: for devices whose F0 identifier
/// decides, the first range with exactly that F0, else the first whose F0
/// range holds it; then the first range with exactly the hardware and
/// software index; else the last range with the device's id.
pub open spec fn detected_at(
    ranges: Seq<DeviceIdRange>,
    id: DeviceId,
    f0: Option<DeviceIdF0>,
    res: Option<int>,
) -> bool {
    let x = match f0 {
        Some(v) => v.0,
        None => 0u16,
    };
    if f0_decides(id, f0) && some_match(ranges, 0, id, x) {
        res matches Some(i) && is_first_match(ranges, i, 0, id, x)
    } else if f0_decides(id, f0) && some_match(ranges, 1, id, x) {
        res matches Some(i) && is_first_match(ranges, i, 1, id, x)
    } else if some_match(ranges, 2, id, x) {
        res matches Some(i) && is_first_match(ranges, i, 2, id, x)
    } else if some_match(ranges, 3, id, x) {
        res matches Some(i) && is_last_match(ranges, i, id)
    } else {
        res is None
    }
}

/// The F0 identifier as a number, 0 where there is none.
pub open spec fn f0_number(f0: Option<DeviceIdF0>) -> u16 {
    match f0 {
        Some(v) => v.0,
        None => 0u16,
    }
}

/// Whether a range names exactly the device's hardware and software index.
pub open spec fn exact_indices(r: DeviceIdRange, id: DeviceId) -> bool {
    r.id == id.id && r.hardware_index == Some(id.hardware_index) && r.software_index == Some(
        id.software_index,
    )
}

/// Detection where the F0 identifier does not decide, or no range has the
/// device's id with that F0 or an F0 range that holds it: the first range with
/// the device's id whose hardware index and software index both equal the
/// device's; where there is none, the last range with the device's id; where
/// no range has the id, nothing. A range with other indices is picked only as
/// that last range.
pub proof fn lemma_detection_by_indices(
    ranges: Seq<DeviceIdRange>,
    id: DeviceId,
    f0: Option<DeviceIdF0>,
    res: Option<int>,
)
    requires
        detected_at(ranges, id, f0, res),
        !f0_decides(id, f0) || forall|j: int|
            0 <= j < ranges.len() ==> !exact_f0(#[trigger] ranges[j], id, f0_number(f0))
                && !f0_in_range(ranges[j], id, f0_number(f0)),
    ensures
        (exists|j: int| 0 <= j < ranges.len() && exact_indices(#[trigger] ranges[j], id)) ==> (
        res matches Some(i) && 0 <= i < ranges.len() && exact_indices(ranges[i], id) && forall|j: int|
            0 <= j < i ==> !exact_indices(#[trigger] ranges[j], id)),
        !(exists|j: int| 0 <= j < ranges.len() && exact_indices(#[trigger] ranges[j], id)) ==> (
        match res {
            Some(i) => 0 <= i < ranges.len() && ranges[i].id == id.id && forall|j: int|
                i < j < ranges.len() ==> (#[trigger] ranges[j]).id != id.id,
            None => forall|j: int| 0 <= j < ranges.len() ==> (#[trigger] ranges[j]).id != id.id,
        }),
{
    let x = match f0 {
        Some(v) => v.0,
        None => 0u16,
    };
    assert forall|j: int| 0 <= j < ranges.len() implies range_matches(2, #[trigger] ranges[j], id, x)
        == exact_indices(ranges[j], id) by {}
    assert forall|j: int| 0 <= j < ranges.len() implies range_matches(3, #[trigger] ranges[j], id, x)
        == (ranges[j].id == id.id) by {}
    if f0_decides(id, f0) {
        if some_match(ranges, 0, id, x) {
            let j = choose|j: int| 0 <= j < ranges.len() && range_matches(0, #[trigger] ranges[j], id, x);
            assert(exact_f0(ranges[j], id, x));
        }
        if some_match(ranges, 1, id, x) {
            let j = choose|j: int| 0 <= j < ranges.len() && range_matches(1, #[trigger] ranges[j], id, x);
            assert(f0_in_range(ranges[j], id, x));
        }
    }
    if exists|j: int| 0 <= j < ranges.len() && exact_indices(#[trigger] ranges[j], id) {
        let j = choose|j: int| 0 <= j < ranges.len() && exact_indices(#[trigger] ranges[j], id);
        assert(range_matches(2, ranges[j], id, x));
        assert(some_match(ranges, 2, id, x));
        let i = res->0;
        assert forall|k: int| 0 <= k < i implies !exact_indices(#[trigger] ranges[k], id) by {
            assert(!range_matches(2, ranges[k], id, x));
        }
    } else {
        if some_match(ranges, 2, id, x) {
            let j = choose|j: int| 0 <= j < ranges.len() && range_matches(2, #[trigger] ranges[j], id, x);
            assert(exact_indices(ranges[j], id));
        }
        if !some_match(ranges, 3, id, x) {
            assert forall|j: int| 0 <= j < ranges.len() implies (#[trigger] ranges[j]).id != id.id by {
                if ranges[j].id == id.id {
                    assert(range_matches(3, ranges[j], id, x));
                }
            }
        }
    }
}

/// Whether a range has the device's id and exactly the F0 identifier `v`.
pub open spec fn exact_f0(r: DeviceIdRange, id: DeviceId, v: u16) -> bool {
    r.id == id.id && r.f0 == Some(v)
}

/// Whether a range has the device's id and an F0 range that holds `v`.
pub open spec fn f0_in_range(r: DeviceIdRange, id: DeviceId, v: u16) -> bool {
    &&& r.id == id.id
    &&& r.f0 matches Some(lo) && r.f0_till matches Some(hi) && lo <= v && v <= hi
}

/// Detection where the F0 identifier `v` decides: the first range with the
/// device's id and exactly that F0; where there is none, the first with the
/// device's id whose F0 range holds it.
pub proof fn lemma_detection_by_f0(
    ranges: Seq<DeviceIdRange>,
    id: DeviceId,
    v: DeviceIdF0,
    res: Option<int>,
)
    requires
        detected_at(ranges, id, Some(v), res),
        f0_decides(id, Some(v)),
    ensures
        (exists|j: int| 0 <= j < ranges.len() && exact_f0(#[trigger] ranges[j], id, v.0)) ==> (
        res matches Some(i) && 0 <= i < ranges.len() && exact_f0(ranges[i], id, v.0) && forall|j: int|
            0 <= j < i ==> !exact_f0(#[trigger] ranges[j], id, v.0)),
        (!exists|j: int| 0 <= j < ranges.len() && exact_f0(#[trigger] ranges[j], id, v.0)) && (exists|
            j: int,
        | 0 <= j < ranges.len() && f0_in_range(#[trigger] ranges[j], id, v.0)) ==> (res matches Some(i)
            && 0 <= i < ranges.len() && f0_in_range(ranges[i], id, v.0) && forall|j: int|
            0 <= j < i ==> !f0_in_range(#[trigger] ranges[j], id, v.0)),
{
    let x = v.0;
    assert forall|j: int| 0 <= j < ranges.len() implies range_matches(0, #[trigger] ranges[j], id, x)
        == exact_f0(ranges[j], id, x) by {}
    assert forall|j: int| 0 <= j < ranges.len() implies range_matches(1, #[trigger] ranges[j], id, x)
        == f0_in_range(ranges[j], id, x) by {}
    if exists|j: int| 0 <= j < ranges.len() && exact_f0(#[trigger] ranges[j], id, x) {
        let j = choose|j: int| 0 <= j < ranges.len() && exact_f0(#[trigger] ranges[j], id, x);
        assert(range_matches(0, ranges[j], id, x));
        let i = res->0;
        assert forall|k: int| 0 <= k < i implies !exact_f0(#[trigger] ranges[k], id, x) by {
            assert(!range_matches(0, ranges[k], id, x));
        }
    } else {
        if some_match(ranges, 0, id, x) {
            let j = choose|j: int| 0 <= j < ranges.len() && range_matches(0, #[trigger] ranges[j], id, x);
            assert(exact_f0(ranges[j], id, x));
        }
        if exists|j: int| 0 <= j < ranges.len() && f0_in_range(#[trigger] ranges[j], id, x) {
            let j = choose|j: int| 0 <= j < ranges.len() && f0_in_range(#[trigger] ranges[j], id, x);
            assert(range_matches(1, ranges[j], id, x));
            let i = res->0;
            assert forall|k: int| 0 <= k < i implies !f0_in_range(#[trigger] ranges[k], id, x) by {
                assert(!range_matches(1, ranges[k], id, x));
            }
        }
    }
}

/// The identifier ranges of a device table.
pub open spec fn ranges_of<D>(devices: Seq<(DeviceIdRange, D)>) -> Seq<DeviceIdRange> {
    devices.map_values(|e: (DeviceIdRange, D)| e.0)
}

fn range_match(kind: u8, r: &DeviceIdRange, id: &DeviceId, f0: u16) -> (res: bool)
    ensures
        res == range_matches(kind as int, *r, *id, f0),
{
    if r.id != id.id {
        return false;
    }
    if kind == 0 {
        match r.f0 {
            Some(v) => v == f0,
            None => false,
        }
    } else if kind == 1 {
        match (r.f0, r.f0_till) {
            (Some(lo), Some(hi)) => lo <= f0 && f0 <= hi,
            _ => false,
        }
    } else if kind == 2 {
        match (r.hardware_index, r.software_index) {
            (Some(hw), Some(sw)) => id.hardware_index == hw && id.software_index == sw,
            _ => false,
        }
    } else {
        true
    }
}

fn find_first<D>(devices: &[(DeviceIdRange, D)], kind: u8, id: &DeviceId, f0: u16) -> (res: Option<usize>)
    ensures
        match res {
            Some(i) => is_first_match(ranges_of(devices@), i as int, kind as int, *id, f0),
            None => !some_match(ranges_of(devices@), kind as int, *id, f0),
        },
{
    let ghost ranges = ranges_of(devices@);
    let mut i: usize = 0;
    while i < devices.len()
        invariant
            i <= devices@.len(),
            ranges == ranges_of(devices@),
            forall|j: int| 0 <= j < i ==> !range_matches(kind as int, #[trigger] ranges[j], *id, f0),
        decreases devices@.len() - i,
    {
        if range_match(kind, &devices[i].0, id, f0) {
            return Some(i);
        }
        i = i + 1;
    }
    None
}

impl Device {
    /// Get the name of the device.
    pub fn name(&self) -> (res: &'static str)
        ensures
            res == self.name,
    {
        self.name
    }

    /// Get all supported commands for the device.
    pub fn commands(&self) -> (res: &'static [(&'static str, Command)])
        ensures
            res == self.commands,
    {
        self.commands
    }

    /// Get a specific command for the device, if it is supported.
    pub fn command(&self, name: &str) -> (res: Option<&'static Command>)
        ensures
            res == (match first_named(self.commands@, name@) {
                Some(i) => Some(&self.commands@[i].1),
                None => None,
            }),
    {
        let commands = self.commands;
        let mut i: usize = 0;
        while i < commands.len()
            invariant
                commands == self.commands,
                i <= commands@.len(),
                forall|j: int| 0 <= j < i ==> (#[trigger] commands@[j]).0@ != name@,
            decreases commands@.len() - i,
        {
            if str_eq(commands[i].0, name) {
                let ghost k = first_named(commands@, name@);
                proof {
                    assert(commands@[i as int].0@ == name@);
                    let c = choose|c: int|
                        0 <= c < commands@.len() && (#[trigger] commands@[c]).0@ == name@ && forall|j: int|
                            0 <= j < c ==> (#[trigger] commands@[j]).0@ != name@;
                    assert(c == i);
                }
                return Some(&commands[i].1);
            }
            i = i + 1;
        }
        None
    }

    /// Get mapping from error codes to strings.
    pub fn errors(&self) -> (res: &'static [(i32, &'static str)])
        ensures
            res == self.errors,
    {
        self.errors
    }

    /// The text of an error code, if the device has one.
    pub fn error_text(&self, code: i32) -> (res: Option<&'static str>)
        ensures
            res == (match first_code(self.errors@, code) {
                Some(i) => Some(self.errors@[i].1),
                None => None,
            }),
    {
        let errors = self.errors;
        let mut i: usize = 0;
        while i < errors.len()
            invariant
                errors == self.errors,
                i <= errors@.len(),
                forall|j: int| 0 <= j < i ==> (#[trigger] errors@[j]).0 != code,
            decreases errors@.len() - i,
        {
            if errors[i].0 == code {
                proof {
                    let c = choose|c: int|
                        0 <= c < errors@.len() && (#[trigger] errors@[c]).0 == code && forall|j: int|
                            0 <= j < c ==> (#[trigger] errors@[j]).0 != code;
                    assert(c == i);
                }
                return Some(errors[i].1);
            }
            i = i + 1;
        }
        None
    }

    /// Detect a device by identifier among the devices of a table, each with
    /// the identifier range it is known by.
    pub fn detect(
        devices: &[(DeviceIdRange, &'static Device)],
        device_id: DeviceId,
        device_id_f0: Option<DeviceIdF0>,
    ) -> (res: Option<&'static Device>)
        ensures
            exists|i: Option<int>|
                #[trigger] detected_at(ranges_of(devices@), device_id, device_id_f0, i)
                    && res == (match i {
                    Some(k) => Some(devices@[k].1),
                    None => None,
                }),
    {
        let ghost ranges = ranges_of(devices@);
        let f0: u16 = match device_id_f0 {
            Some(v) => v.0,
            None => 0,
        };

        if let Some(device_id_f0) = device_id_f0 {
            if 192 <= device_id.id && device_id.id <= 203 && device_id.software_index >= 200 {
                // Find exact F0 match.
                if let Some(i) = find_first(devices, 0, &device_id, f0) {
                    assert(detected_at(ranges, device_id, Some(device_id_f0), Some(i as int)));
                    return Some(devices[i].1);
                }
                // Find match in F0 range.
                if let Some(i) = find_first(devices, 1, &device_id, f0) {
                    assert(detected_at(ranges, device_id, Some(device_id_f0), Some(i as int)));
                    return Some(devices[i].1);
                }
            }
        }

        // Find exact hardware/software index match, remembering the last
        // device with the identifier.
        let mut device_fallback: Option<usize> = None;
        let mut i: usize = 0;
        while i < devices.len()
            invariant
                i <= devices@.len(),
                ranges == ranges_of(devices@),
                forall|j: int| 0 <= j < i ==> !range_matches(2, #[trigger] ranges[j], device_id, f0),
                f0 == (match device_id_f0 {
                    Some(v) => v.0,
                    None => 0u16,
                }),
                f0_decides(device_id, device_id_f0) ==> !some_match(ranges, 0, device_id, f0)
                    && !some_match(ranges, 1, device_id, f0),
                match device_fallback {
                    Some(k) => k < i && ranges[k as int].id == device_id.id && forall|j: int|
                        k < j < i ==> (#[trigger] ranges[j]).id != device_id.id,
                    None => forall|j: int| 0 <= j < i ==> (#[trigger] ranges[j]).id != device_id.id,
                },
            decreases devices@.len() - i,
        {
            if devices[i].0.id == device_id.id {
                if range_match(2, &devices[i].0, &device_id, f0) {
                    proof {
                        assert(ranges[i as int] == devices@[i as int].0);
                        assert(range_matches(2, ranges[i as int], device_id, f0));
                        assert(some_match(ranges, 2, device_id, f0));
                        assert(is_first_match(ranges, i as int, 2, device_id, f0));
                        assert(detected_at(ranges, device_id, device_id_f0, Some(i as int)));
                    }
                    return Some(devices[i].1);
                }
                device_fallback = Some(i);
            }
            i = i + 1;
        }

        match device_fallback {
            Some(k) => {
                assert(range_matches(3, ranges[k as int], device_id, f0));
                assert(detected_at(ranges, device_id, device_id_f0, Some(k as int)));
                Some(devices[k].1)
            },
            None => {
                assert(detected_at(ranges, device_id, device_id_f0, None));
                None
            },
        }
    }
}

} // verus!
