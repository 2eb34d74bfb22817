//! The importer's cleaned form of the vendor data.
use vstd::prelude::*;
use vstd::string::StringExecFns;

use crate::codegen::generate::without_prefix;
use crate::codegen::strings::{
    after_prefix, collapse_whitespace, simplified, snake_case, snake_cased, strip_prefix, trim, trimmed,
};
use crate::codegen::translations::{lookup, translation_of};
use crate::text::str_eq;

verus! {

/// A data point type, that is a device family, after cleaning.
#[derive(Debug, Clone)]
pub struct DataPointType {
    pub address: Option<String>,
    /// The ids of its event types, ascending and each once.
    pub event_types: Vec<u32>,
    pub f0: Option<u16>,
    pub f0_till: Option<u16>,
    pub identification: Option<String>,
    pub identification_extension: Option<String>,
    pub identification_extension_till: Option<String>,
    pub name: String,
    pub options: Vec<String>,
    pub status_event_type_id: u8,
}

/// The conversion that an event type names: one by its name, or a table of
/// named conversions, here by their names; the factors and offsets of such a
/// table are numbers with a fraction, which the importer keeps beside it.
#[derive(Debug, Clone)]
pub enum Conversion {
    S(String),
    M(Vec<String>),
}

/// An event type, that is a data point of a device, after cleaning: what the
/// importer reads of it. Its borders, its stepping and its default value are
/// numbers with a fraction, which the importer keeps beside it.
#[derive(Debug, Clone)]
pub struct EventType {
    pub access_mode: String,
    pub address: Option<String>,
    pub bit_length: Option<u8>,
    pub bit_position: Option<u8>,
    pub block_factor: Option<u8>,
    pub block_length: Option<u16>,
    pub byte_length: Option<u16>,
    pub byte_position: Option<u8>,
    pub conversion: Option<Conversion>,
    pub fc_read: Option<String>,
    pub fc_write: Option<String>,
    pub mapping_type: Option<String>,
    pub parameter: Option<String>,
    pub sdk_data_type: Option<String>,
    pub unit: Option<String>,
    /// The names of its values, by their numbers in ascending order.
    pub value_list: Vec<(i32, String)>,
    pub value_type: Option<String>,
}

/// Collapses the runs of white space of a text and trims its ends.
pub fn simplify_translation_text(text: &str) -> (res: String)
    ensures
        res@ == simplified(text@),
{
    let collapsed = collapse_whitespace(text);
    String::from_str(trim(collapsed.as_str()))
}

/// The function through which the vendor data reads or writes a value:
/// none for an empty or `undefined` name.
pub open spec fn function_name(f: Seq<char>) -> Option<Seq<char>> {
    if f == ""@ || f == "undefined"@ {
        None
    } else {
        Some(snake_cased(f))
    }
}

/// Parses the name of a read or write function.
pub fn parse_function(f: String) -> (res: Option<String>)
    ensures
        res matches Some(name) ==> function_name(f@) == Some(name@),
        res is None ==> function_name(f@) is None,
{
    if str_eq(f.as_str(), "") || str_eq(f.as_str(), "undefined") {
        None
    } else {
        Some(snake_case(f.as_str()))
    }
}

/// A translation reference: the id behind the `@@` mark.
pub open spec fn reference(id: Seq<char>) -> Seq<char> {
    "@@"@ + id
}

/// The translation that a description of the vendor data refers to: one
/// that is already a reference, the translation whose German text it is, the
/// translation of that id, or the description translation of that event type.
pub open spec fn description_reference(
    text: Seq<char>,
    translations: Seq<(String, String)>,
    reverse_translations: Seq<(String, String)>,
) -> Option<Seq<char>> {
    let v = trimmed(text);
    let k2 = "viessmann.eventtype."@ + v + ".description"@;
    if v.len() == 0 {
        None
    } else if v.len() >= 2 && v.subrange(0, 2) == "@@"@ {
        Some(v)
    } else if lookup(reverse_translations, simplified(v)) is Some {
        Some(reference(lookup(reverse_translations, simplified(v))->0))
    } else if lookup(translations, v) is Some {
        Some(reference(v))
    } else if lookup(translations, k2) is Some {
        Some(reference(k2))
    } else {
        None
    }
}

/// A reference to the id, as a string.
fn make_reference(id: &str) -> (res: String)
    ensures
        res@ == reference(id@),
{
    let mut r = String::from_str("@@");
    r.append(id);
    r
}

/// Finds the translation that a description refers to. The tables list
/// translations by id and ids by German text.
pub fn parse_description(
    text: &str,
    translations: &[(String, String)],
    reverse_translations: &[(String, String)],
) -> (res: Option<String>)
    ensures
        res matches Some(r) ==> description_reference(text@, translations@, reverse_translations@)
            == Some(r@),
        res is None ==> description_reference(text@, translations@, reverse_translations@) is None,
{
    let v = trim(text);
    if v.unicode_len() == 0 {
        return None;
    }
    if crate::text::starts_with(v, "@@") {
        proof {
            reveal_strlit("@@");
        }
        return Some(String::from_str(v));
    }
    proof {
        reveal_strlit("@@");
    }
    let k = simplify_translation_text(v);
    if let Some(translation_id) = translation_of(reverse_translations, k.as_str()) {
        return Some(make_reference(translation_id));
    }
    if translation_of(translations, v).is_some() {
        return Some(make_reference(v));
    }
    let mut k2 = String::from_str("viessmann.eventtype.");
    k2.append(v);
    k2.append(".description");
    if translation_of(translations, k2.as_str()).is_some() {
        Some(make_reference(k2.as_str()))
    } else {
        None
    }
}

/// The symbol of a unit name of the vendor data: `Some(Some(symbol))`, or
/// `Some(None)` for a name without a unit, or `None` for one that the
/// importer does not know.
pub open spec fn unit_table(unit: Seq<char>) -> Option<Option<Seq<char>>> {
    if unit == "Minuten"@ {
        Some(Some("min"@))
    } else if unit == "Grad C"@ {
        Some(Some("°C"@))
    } else if unit == "Prozent"@ {
        Some(Some("%"@))
    } else if unit == "K"@ {
        Some(Some("K"@))
    } else if unit == "Sekunden"@ {
        Some(Some("s"@))
    } else if unit == "Sek."@ {
        Some(Some("s"@))
    } else if unit == "Stunden"@ {
        Some(Some("h"@))
    } else if unit == "Prozent pro K"@ {
        Some(Some("%/K"@))
    } else if unit == "Bar"@ {
        Some(Some("bar"@))
    } else if unit == "Ohm"@ {
        Some(Some("Ω"@))
    } else if unit == "K Sec"@ {
        Some(Some("K/s"@))
    } else if unit == "K Min"@ {
        Some(Some("K/min"@))
    } else if unit == "K pro h"@ {
        Some(Some("K/h"@))
    } else if unit == "Monate"@ {
        Some(Some("mo"@))
    } else if unit == "kW"@ {
        Some(Some("kW"@))
    } else if unit == "KW"@ {
        Some(Some("kW"@))
    } else if unit == "kW_10"@ {
        Some(Some("kW"@))
    } else if unit == "MWh"@ {
        Some(Some("MWh"@))
    } else if unit == "kWh"@ {
        Some(Some("kWh"@))
    } else if unit == "l pro min"@ {
        Some(Some("l/min"@))
    } else if unit == "l pro h"@ {
        Some(Some("l/h"@))
    } else if unit == "m3 pro h"@ {
        Some(Some("m³/h"@))
    } else if unit == "cbm pro h"@ {
        Some(Some("m³/h"@))
    } else if unit == "m3"@ {
        Some(Some("m³"@))
    } else if unit == "kWh pro m3"@ {
        Some(Some("kWh/m³"@))
    } else if unit == "Tage"@ {
        Some(Some("d"@))
    } else if unit == "Liter"@ {
        Some(Some("l"@))
    } else if unit == "kg"@ {
        Some(Some("kg"@))
    } else if unit == "rps"@ {
        Some(Some("rev/s"@))
    } else if unit == "rps pro s"@ {
        Some(Some("rev/s²"@))
    } else if unit == "U pro min"@ {
        Some(Some("rev/min"@))
    } else if unit == "Grad C pro Min"@ {
        Some(Some("°C/min"@))
    } else if unit == "Tonnen"@ {
        Some(Some("t"@))
    } else if unit == "mBar"@ {
        Some(Some("mbar"@))
    } else if unit == "dBm"@ {
        Some(Some("dBm"@))
    } else if unit == "Bar (absolut)"@ {
        Some(Some("bara"@))
    } else if unit == "ct_pro_kwh"@ {
        Some(Some("c/kWh"@))
    } else if unit == "g_pro_sec"@ {
        Some(Some("g/s"@))
    } else if unit == "kg_pro_h"@ {
        Some(Some("kg/h"@))
    } else if unit == "h"@ {
        Some(Some("h"@))
    } else if unit == "V"@ {
        Some(Some("V"@))
    } else if unit == "mV"@ {
        Some(Some("mV"@))
    } else if unit == "A"@ {
        Some(Some("A"@))
    } else if unit == "Hz"@ {
        Some(Some("Hz"@))
    } else if unit == "W"@ {
        Some(Some("W"@))
    } else if unit == "Wh"@ {
        Some(Some("Wh"@))
    } else if unit == "VA"@ {
        Some(Some("VA"@))
    } else if unit == "VAr"@ {
        Some(Some("VAr"@))
    } else if unit == "Ah"@ {
        Some(Some("Ah"@))
    } else if unit == "kJ"@ {
        Some(Some("kJ"@))
    } else if unit == "MJ"@ {
        Some(Some("MJ"@))
    } else if unit == "GJ"@ {
        Some(Some("GJ"@))
    } else if unit == "ppm"@ {
        Some(Some("ppm"@))
    } else if unit == ""@ {
        Some(None)
    } else if unit == "Minus"@ {
        Some(None)
    } else if unit == "Pts"@ {
        Some(None)
    } else if unit == "Pkt"@ {
        Some(None)
    } else if unit == "sech"@ {
        Some(None)
    } else {
        None
    }
}

/// A unit name without the `ecnUnit.` prefix that some names carry.
pub open spec fn unit_name(unit: Seq<char>) -> Seq<char> {
    without_prefix(unit, "ecnUnit."@)
}

/// A unit name means the same with or without the `ecnUnit.` prefix: both
/// have the same symbol, and both are known or unknown alike, so that
/// `parse_unit` accepts both or refuses both (the importer panics on an
/// unknown name).
pub proof fn lemma_unit_prefix(u: Seq<char>)
    requires
        after_prefix(u, "ecnUnit."@) is None,
    ensures
        unit_name("ecnUnit."@ + u) == unit_name(u),
        unit_table(unit_name("ecnUnit."@ + u)) == unit_table(unit_name(u)),
        (unit_table(unit_name("ecnUnit."@ + u)) is Some) <==> (unit_table(unit_name(u)) is Some),
{
    let p = "ecnUnit."@;
    let s = p + u;
    assert(s.subrange(0, p.len() as int) =~= p);
    assert(s.subrange(p.len() as int, s.len() as int) =~= u);
}

/// The symbol of a unit of the vendor data, if it has one.
pub fn parse_unit(unit: &str) -> (res: Option<&'static str>)
    requires
        unit_table(unit_name(unit@)) is Some,
    ensures
        res matches Some(symbol) ==> unit_table(unit_name(unit@)) == Some(Some(symbol@)),
        res is None ==> unit_table(unit_name(unit@)) == Some(None::<Seq<char>>),
{
    let name = match strip_prefix(unit, "ecnUnit.") {
        Some(rest) => rest,
        None => unit,
    };
    if str_eq(name, "Minuten") {
        Some("min")
    } else if str_eq(name, "Grad C") {
        Some("°C")
    } else if str_eq(name, "Prozent") {
        Some("%")
    } else if str_eq(name, "K") {
        Some("K")
    } else if str_eq(name, "Sekunden") {
        Some("s")
    } else if str_eq(name, "Sek.") {
        Some("s")
    } else if str_eq(name, "Stunden") {
        Some("h")
    } else if str_eq(name, "Prozent pro K") {
        Some("%/K")
    } else if str_eq(name, "Bar") {
        Some("bar")
    } else if str_eq(name, "Ohm") {
        Some("Ω")
    } else if str_eq(name, "K Sec") {
        Some("K/s")
    } else if str_eq(name, "K Min") {
        Some("K/min")
    } else if str_eq(name, "K pro h") {
        Some("K/h")
    } else if str_eq(name, "Monate") {
        Some("mo")
    } else if str_eq(name, "kW") {
        Some("kW")
    } else if str_eq(name, "KW") {
        Some("kW")
    } else if str_eq(name, "kW_10") {
        Some("kW")
    } else if str_eq(name, "MWh") {
        Some("MWh")
    } else if str_eq(name, "kWh") {
        Some("kWh")
    } else if str_eq(name, "l pro min") {
        Some("l/min")
    } else if str_eq(name, "l pro h") {
        Some("l/h")
    } else if str_eq(name, "m3 pro h") {
        Some("m³/h")
    } else if str_eq(name, "cbm pro h") {
        Some("m³/h")
    } else if str_eq(name, "m3") {
        Some("m³")
    } else if str_eq(name, "kWh pro m3") {
        Some("kWh/m³")
    } else if str_eq(name, "Tage") {
        Some("d")
    } else if str_eq(name, "Liter") {
        Some("l")
    } else if str_eq(name, "kg") {
        Some("kg")
    } else if str_eq(name, "rps") {
        Some("rev/s")
    } else if str_eq(name, "rps pro s") {
        Some("rev/s²")
    } else if str_eq(name, "U pro min") {
        Some("rev/min")
    } else if str_eq(name, "Grad C pro Min") {
        Some("°C/min")
    } else if str_eq(name, "Tonnen") {
        Some("t")
    } else if str_eq(name, "mBar") {
        Some("mbar")
    } else if str_eq(name, "dBm") {
        Some("dBm")
    } else if str_eq(name, "Bar (absolut)") {
        Some("bara")
    } else if str_eq(name, "ct_pro_kwh") {
        Some("c/kWh")
    } else if str_eq(name, "g_pro_sec") {
        Some("g/s")
    } else if str_eq(name, "kg_pro_h") {
        Some("kg/h")
    } else if str_eq(name, "h") {
        Some("h")
    } else if str_eq(name, "V") {
        Some("V")
    } else if str_eq(name, "mV") {
        Some("mV")
    } else if str_eq(name, "A") {
        Some("A")
    } else if str_eq(name, "Hz") {
        Some("Hz")
    } else if str_eq(name, "W") {
        Some("W")
    } else if str_eq(name, "Wh") {
        Some("Wh")
    } else if str_eq(name, "VA") {
        Some("VA")
    } else if str_eq(name, "VAr") {
        Some("VAr")
    } else if str_eq(name, "Ah") {
        Some("Ah")
    } else if str_eq(name, "kJ") {
        Some("kJ")
    } else if str_eq(name, "MJ") {
        Some("MJ")
    } else if str_eq(name, "GJ") {
        Some("GJ")
    } else if str_eq(name, "ppm") {
        Some("ppm")
    } else if str_eq(name, "") {
        None
    } else if str_eq(name, "Minus") {
        None
    } else if str_eq(name, "Pts") {
        None
    } else if str_eq(name, "Pkt") {
        None
    } else if str_eq(name, "sech") {
        None
    } else {
        None
    }
}

} // verus!
