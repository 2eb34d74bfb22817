//! The vendor data as the importer reads it, and the parsing of its fields.
use vstd::prelude::*;
use vstd::string::StringExecFns;

use crate::codegen::strings::{
    all_digits, before_suffix, is_digit, collapse_whitespace, collapsed_white_space, joined_trimmed, lines_of, parse_u8,
    parsed_u8, pieces, replace, replaced, snake_case, snake_cased, split, split_once, split_once_at,
    strip_suffix, trim, trim_lines, trimmed,
};
use crate::text::str_eq;

verus! {

/// What a conversion name of the vendor data stands for: `Some(None)` for
/// none, `Some(Some(name))` for the conversion of that name in this library,
/// `None` for a name that the importer does not know.
pub open spec fn conversion_table(conversion: Seq<char>) -> Option<Option<Seq<char>>> {
    if conversion == "NoConversion"@ || conversion == ""@ || conversion == "GWG_2010_Kennung~0x00F9"@ {
        Some(None)
    } else if conversion == "Div2"@ {
        Some(Some("div2"@))
    } else if conversion == "Div10"@ {
        Some(Some("div10"@))
    } else if conversion == "Div100"@ {
        Some(Some("div100"@))
    } else if conversion == "Div1000"@ {
        Some(Some("div1000"@))
    } else if conversion == "Mult2"@ {
        Some(Some("mul2"@))
    } else if conversion == "Mult5"@ {
        Some(Some("mul5"@))
    } else if conversion == "Mult10"@ {
        Some(Some("mul10"@))
    } else if conversion == "Mult100"@ {
        Some(Some("mul100"@))
    } else if conversion == "MultOffset"@ {
        Some(Some("mul_offset"@))
    } else if conversion == "MultOffsetBCD"@ {
        Some(Some("mul_offset_bcd"@))
    } else if conversion == "MultOffsetFloat"@ {
        Some(Some("mul_offset_float"@))
    } else if conversion == "DateBCD"@ {
        Some(Some("date_bcd"@))
    } else if conversion == "RotateBytes"@ {
        Some(Some("rotate_bytes"@))
    } else if conversion == "Time53"@ {
        Some(Some("time53"@))
    } else if conversion == "HexByte2UTF16Byte"@ {
        Some(Some("hex_byte_to_utf16_byte"@))
    } else if conversion == "HexByte2AsciiByte"@ {
        Some(Some("hex_byte_to_ascii_byte"@))
    } else if conversion == "HexByte2DecimalByte"@ {
        Some(Some("hex_byte_to_decimal_byte"@))
    } else if conversion == "HexByte2Version"@ {
        Some(Some("hex_byte_to_version"@))
    } else if conversion == "HexToFloat"@ {
        Some(Some("hex_to_float"@))
    } else if conversion == "Sec2Minute"@ {
        Some(Some("sec_to_minute"@))
    } else if conversion == "Sec2Hour"@ {
        Some(Some("sec_to_hour"@))
    } else if conversion == "Phone2BCD"@ {
        Some(Some("phone_to_bcd"@))
    } else if conversion == "Estrich"@ {
        Some(Some("estrich"@))
    } else if conversion == "VitocomNV"@ {
        Some(Some("vitocom_nv"@))
    } else if conversion == "Vitocom3NV"@ {
        Some(Some("vitocom3_nv"@))
    } else if conversion == "DatenpunktADDR"@ {
        Some(Some("datenpunkt_addr"@))
    } else if conversion == "Kesselfolge"@ {
        Some(Some("kesselfolge"@))
    } else if conversion == "LastBurnerCheck"@ {
        Some(Some("last_burner_check"@))
    } else if conversion == "LastCheckInterval"@ {
        Some(Some("last_check_interval"@))
    } else if conversion == "DateMBus"@ {
        Some(Some("date_mbus"@))
    } else if conversion == "DateTimeMBus"@ {
        Some(Some("date_time_mbus"@))
    } else if conversion == "DateTimeBCD"@ {
        Some(Some("date_time_bcd"@))
    } else if conversion == "DateTimeVitocom"@ {
        Some(Some("date_time_vitocom"@))
    } else if conversion == "FixedStringTerminalZeroes"@ {
        Some(Some("fixed_string_terminal_zeroes"@))
    } else if conversion == "Vitocom300SGEinrichtenKanalLON"@ {
        Some(Some("vitocom300_sg_einrichten_kanal_lon"@))
    } else if conversion == "Vitocom300SGEinrichtenKanalMBUS"@ {
        Some(Some("vitocom300_sg_einrichten_kanal_mbus"@))
    } else if conversion == "Vitocom300SGEinrichtenKanalWILO"@ {
        Some(Some("vitocom300_sg_einrichten_kanal_wilo"@))
    } else if conversion == "VitocomEingang"@ {
        Some(Some("vitocom_eingang"@))
    } else if conversion == "IPAddress"@ {
        Some(Some("ip_address"@))
    } else if conversion == "DayToDate"@ {
        Some(Some("day_to_date"@))
    } else if conversion == "DayMonthBCD"@ {
        Some(Some("day_month_bcd"@))
    } else if conversion == "BinaryToJson"@ {
        Some(Some("binary_to_json"@))
    } else {
        None
    }
}

/// A vendor conversion that divides or multiplies by a number stands for the
/// library conversion that divides or multiplies by the same number:
/// `Div` and digits gives `div` and the same digits, `Mult` and digits gives
/// `mul` and the same digits.
pub proof fn lemma_scaling_conversions(c: Seq<char>)
    ensures
        c.len() > 3 && c.subrange(0, 3) == "Div"@ && all_digits(c.subrange(3, c.len() as int))
            && conversion_table(c) is Some && conversion_table(c)->0 is Some ==> conversion_table(c)->0->0
            == "div"@ + c.subrange(3, c.len() as int),
        c.len() > 4 && c.subrange(0, 4) == "Mult"@ && all_digits(c.subrange(4, c.len() as int))
            && conversion_table(c) is Some && conversion_table(c)->0 is Some ==> conversion_table(c)->0->0
            == "mul"@ + c.subrange(4, c.len() as int),
{
    reveal_strlit("");
    reveal_strlit("BinaryToJson");
    reveal_strlit("DateBCD");
    reveal_strlit("DateMBus");
    reveal_strlit("DateTimeBCD");
    reveal_strlit("DateTimeMBus");
    reveal_strlit("DateTimeVitocom");
    reveal_strlit("DatenpunktADDR");
    reveal_strlit("DayMonthBCD");
    reveal_strlit("DayToDate");
    reveal_strlit("Div10");
    reveal_strlit("Div100");
    reveal_strlit("Div1000");
    reveal_strlit("Div2");
    reveal_strlit("Estrich");
    reveal_strlit("FixedStringTerminalZeroes");
    reveal_strlit("GWG_2010_Kennung~0x00F9");
    reveal_strlit("HexByte2AsciiByte");
    reveal_strlit("HexByte2DecimalByte");
    reveal_strlit("HexByte2UTF16Byte");
    reveal_strlit("HexByte2Version");
    reveal_strlit("HexToFloat");
    reveal_strlit("IPAddress");
    reveal_strlit("Kesselfolge");
    reveal_strlit("LastBurnerCheck");
    reveal_strlit("LastCheckInterval");
    reveal_strlit("Mult10");
    reveal_strlit("Mult100");
    reveal_strlit("Mult2");
    reveal_strlit("Mult5");
    reveal_strlit("MultOffset");
    reveal_strlit("MultOffsetBCD");
    reveal_strlit("MultOffsetFloat");
    reveal_strlit("NoConversion");
    reveal_strlit("Phone2BCD");
    reveal_strlit("RotateBytes");
    reveal_strlit("Sec2Hour");
    reveal_strlit("Sec2Minute");
    reveal_strlit("Time53");
    reveal_strlit("Vitocom300SGEinrichtenKanalLON");
    reveal_strlit("Vitocom300SGEinrichtenKanalMBUS");
    reveal_strlit("Vitocom300SGEinrichtenKanalWILO");
    reveal_strlit("Vitocom3NV");
    reveal_strlit("VitocomEingang");
    reveal_strlit("VitocomNV");
    reveal_strlit("binary_to_json");
    reveal_strlit("date_bcd");
    reveal_strlit("date_mbus");
    reveal_strlit("date_time_bcd");
    reveal_strlit("date_time_mbus");
    reveal_strlit("date_time_vitocom");
    reveal_strlit("datenpunkt_addr");
    reveal_strlit("day_month_bcd");
    reveal_strlit("day_to_date");
    reveal_strlit("div10");
    reveal_strlit("div100");
    reveal_strlit("div1000");
    reveal_strlit("div2");
    reveal_strlit("estrich");
    reveal_strlit("fixed_string_terminal_zeroes");
    reveal_strlit("hex_byte_to_ascii_byte");
    reveal_strlit("hex_byte_to_decimal_byte");
    reveal_strlit("hex_byte_to_utf16_byte");
    reveal_strlit("hex_byte_to_version");
    reveal_strlit("hex_to_float");
    reveal_strlit("ip_address");
    reveal_strlit("kesselfolge");
    reveal_strlit("last_burner_check");
    reveal_strlit("last_check_interval");
    reveal_strlit("mul10");
    reveal_strlit("mul100");
    reveal_strlit("mul2");
    reveal_strlit("mul5");
    reveal_strlit("mul_offset");
    reveal_strlit("mul_offset_bcd");
    reveal_strlit("mul_offset_float");
    reveal_strlit("phone_to_bcd");
    reveal_strlit("rotate_bytes");
    reveal_strlit("sec_to_hour");
    reveal_strlit("sec_to_minute");
    reveal_strlit("time53");
    reveal_strlit("vitocom300_sg_einrichten_kanal_lon");
    reveal_strlit("vitocom300_sg_einrichten_kanal_mbus");
    reveal_strlit("vitocom300_sg_einrichten_kanal_wilo");
    reveal_strlit("vitocom3_nv");
    reveal_strlit("vitocom_eingang");
    reveal_strlit("vitocom_nv");
    reveal_strlit("Div");
    reveal_strlit("div");
    reveal_strlit("Mult");
    reveal_strlit("mul");
    let x = c.subrange(3, c.len() as int);
    let y = c.subrange(4, c.len() as int);
    if c.len() > 3 && c.subrange(0, 3) == "Div"@ && all_digits(x) {
        assert(c.subrange(0, 3)[0] == c[0] && c.subrange(0, 3)[1] == c[1] && c.subrange(0, 3)[2]
            == c[2]);
        assert(c[0] == 'D' && c[1] == 'i' && c[2] == 'v');
        assert(is_digit(x[0]) && x[0] == c[3]);
    }
    if c.len() > 4 && c.subrange(0, 4) == "Mult"@ && all_digits(y) {
        assert(c.subrange(0, 4)[0] == c[0] && c.subrange(0, 4)[1] == c[1] && c.subrange(0, 4)[2]
            == c[2] && c.subrange(0, 4)[3] == c[3]);
        assert(c[0] == 'M' && c[1] == 'u' && c[2] == 'l' && c[3] == 't');
        assert(is_digit(y[0]) && y[0] == c[4]);
    }
    if c == "Div2"@ {
        assert(x =~= seq!['2']);
        assert("div2"@ =~= "div"@ + x);
    } else if c == "Div10"@ {
        assert(x =~= seq!['1', '0']);
        assert("div10"@ =~= "div"@ + x);
    } else if c == "Div100"@ {
        assert(x =~= seq!['1', '0', '0']);
        assert("div100"@ =~= "div"@ + x);
    } else if c == "Div1000"@ {
        assert(x =~= seq!['1', '0', '0', '0']);
        assert("div1000"@ =~= "div"@ + x);
    } else if c == "Mult2"@ {
        assert(y =~= seq!['2']);
        assert("mul2"@ =~= "mul"@ + y);
    } else if c == "Mult5"@ {
        assert(y =~= seq!['5']);
        assert("mul5"@ =~= "mul"@ + y);
    } else if c == "Mult10"@ {
        assert(y =~= seq!['1', '0']);
        assert("mul10"@ =~= "mul"@ + y);
    } else if c == "Mult100"@ {
        assert(y =~= seq!['1', '0', '0']);
        assert("mul100"@ =~= "mul"@ + y);
    }
}

/// The name of the conversion that a conversion of the vendor data stands for.
pub fn parse_conversion(conversion: &str) -> (res: Option<String>)
    requires
        conversion_table(conversion@) is Some,
    ensures
        res matches Some(name) ==> conversion_table(conversion@) == Some(Some(name@)),
        res is None ==> conversion_table(conversion@) == Some(None::<Seq<char>>),
{
    let name: &str = if str_eq(conversion, "NoConversion") || str_eq(conversion, "") || str_eq(
        conversion,
        "GWG_2010_Kennung~0x00F9",
    ) {
        return None;
    } else if str_eq(conversion, "Div2") {
        "div2"
    } else if str_eq(conversion, "Div10") {
        "div10"
    } else if str_eq(conversion, "Div100") {
        "div100"
    } else if str_eq(conversion, "Div1000") {
        "div1000"
    } else if str_eq(conversion, "Mult2") {
        "mul2"
    } else if str_eq(conversion, "Mult5") {
        "mul5"
    } else if str_eq(conversion, "Mult10") {
        "mul10"
    } else if str_eq(conversion, "Mult100") {
        "mul100"
    } else if str_eq(conversion, "MultOffset") {
        "mul_offset"
    } else if str_eq(conversion, "MultOffsetBCD") {
        "mul_offset_bcd"
    } else if str_eq(conversion, "MultOffsetFloat") {
        "mul_offset_float"
    } else if str_eq(conversion, "DateBCD") {
        "date_bcd"
    } else if str_eq(conversion, "RotateBytes") {
        "rotate_bytes"
    } else if str_eq(conversion, "Time53") {
        "time53"
    } else if str_eq(conversion, "HexByte2UTF16Byte") {
        "hex_byte_to_utf16_byte"
    } else if str_eq(conversion, "HexByte2AsciiByte") {
        "hex_byte_to_ascii_byte"
    } else if str_eq(conversion, "HexByte2DecimalByte") {
        "hex_byte_to_decimal_byte"
    } else if str_eq(conversion, "HexByte2Version") {
        "hex_byte_to_version"
    } else if str_eq(conversion, "HexToFloat") {
        "hex_to_float"
    } else if str_eq(conversion, "Sec2Minute") {
        "sec_to_minute"
    } else if str_eq(conversion, "Sec2Hour") {
        "sec_to_hour"
    } else if str_eq(conversion, "Phone2BCD") {
        "phone_to_bcd"
    } else if str_eq(conversion, "Estrich") {
        "estrich"
    } else if str_eq(conversion, "VitocomNV") {
        "vitocom_nv"
    } else if str_eq(conversion, "Vitocom3NV") {
        "vitocom3_nv"
    } else if str_eq(conversion, "DatenpunktADDR") {
        "datenpunkt_addr"
    } else if str_eq(conversion, "Kesselfolge") {
        "kesselfolge"
    } else if str_eq(conversion, "LastBurnerCheck") {
        "last_burner_check"
    } else if str_eq(conversion, "LastCheckInterval") {
        "last_check_interval"
    } else if str_eq(conversion, "DateMBus") {
        "date_mbus"
    } else if str_eq(conversion, "DateTimeMBus") {
        "date_time_mbus"
    } else if str_eq(conversion, "DateTimeBCD") {
        "date_time_bcd"
    } else if str_eq(conversion, "DateTimeVitocom") {
        "date_time_vitocom"
    } else if str_eq(conversion, "FixedStringTerminalZeroes") {
        "fixed_string_terminal_zeroes"
    } else if str_eq(conversion, "Vitocom300SGEinrichtenKanalLON") {
        "vitocom300_sg_einrichten_kanal_lon"
    } else if str_eq(conversion, "Vitocom300SGEinrichtenKanalMBUS") {
        "vitocom300_sg_einrichten_kanal_mbus"
    } else if str_eq(conversion, "Vitocom300SGEinrichtenKanalWILO") {
        "vitocom300_sg_einrichten_kanal_wilo"
    } else if str_eq(conversion, "VitocomEingang") {
        "vitocom_eingang"
    } else if str_eq(conversion, "IPAddress") {
        "ip_address"
    } else if str_eq(conversion, "DayToDate") {
        "day_to_date"
    } else if str_eq(conversion, "DayMonthBCD") {
        "day_month_bcd"
    } else if str_eq(conversion, "BinaryToJson") {
        "binary_to_json"
    } else {
        return None;
    };
    Some(String::from_str(name))
}

/// A culture that the text resources name the default.
#[derive(Debug, Clone)]
pub struct DefaultCulture {
    pub company_id: u8,
    pub default_culture_id: u8,
}

/// The default cultures of a text resource file.
#[derive(Debug, Clone)]
pub struct DefaultCultures {
    pub default_culture: DefaultCulture,
}

/// A culture, that is a language, of the text resources.
#[derive(Debug, Clone)]
pub struct Culture {
    pub id: u8,
    pub company_id: u8,
    pub name: String,
}

/// The cultures of a text resource file.
#[derive(Debug, Clone)]
pub struct Cultures {
    pub culture: Vec<Culture>,
}

/// One text of one culture, under its label.
#[derive(Debug, Clone)]
pub struct TextResource {
    pub company_id: u8,
    pub culture_id: u8,
    pub label: String,
    pub value: String,
}

/// The texts of a text resource file.
#[derive(Debug, Clone)]
pub struct TextResources {
    pub text_resource: Vec<TextResource>,
}

/// A text resource file.
#[derive(Debug, Clone)]
pub struct DocumentElement {
    pub xmlns: String,
    pub default_cultures: DefaultCultures,
    pub cultures: Cultures,
    pub text_resources: TextResources,
}

/// The diff gram of the document server data set, which holds nothing that
/// the importer reads.
#[derive(Debug, Clone)]
pub struct DocumentServerDataSetDiffGram {}

/// The document server data set of the data-point definitions.
#[derive(Debug, Clone)]
pub struct DocumentServerDataSet {
    pub diff_gram: DocumentServerDataSetDiffGram,
}

/// The text of a translation after its markers for newlines, tabs and
/// semicolons are resolved: trimmed, with runs of white space collapsed, and
/// each resulting line trimmed.
pub open spec fn translation_text(text: Seq<char>) -> Seq<char> {
    let t = collapsed_white_space(trimmed(text));
    let t = replaced(t, "##ecnnewline##"@, seq!['\n']);
    let t = replaced(t, "##ecntab##"@, seq!['\t']);
    let t = replaced(t, "##ecnsemicolon##"@, seq![';']);
    let t = replaced(t, "##nl##"@, seq!['\n']);
    joined_trimmed(lines_of(t))
}

/// Resolves the markers of a translation text and normalises its white space.
pub fn parse_translation_text(text: String) -> (res: String)
    ensures
        res@ == translation_text(text@),
{
    proof {
        reveal_strlit("##ecnnewline##");
        reveal_strlit("##ecntab##");
        reveal_strlit("##ecnsemicolon##");
        reveal_strlit("##nl##");
        reveal_strlit("\n");
        reveal_strlit("\t");
        reveal_strlit(";");
    }
    let t = collapse_whitespace(trim(text.as_str()));
    let t = replace(t.as_str(), "##ecnnewline##", "\n");
    let t = replace(t.as_str(), "##ecntab##", "\t");
    let t = replace(t.as_str(), "##ecnsemicolon##", ";");
    let t = replace(t.as_str(), "##nl##", "\n");
    assert("\n"@ =~= seq!['\n']);
    assert("\t"@ =~= seq!['\t']);
    assert(";"@ =~= seq![';']);
    trim_lines(t.as_str())
}

/// The name and the index of a translation id of the form `name~index`, as
/// the regex `^(?<name>.*)~(?<index>\d+)$` captures them.
pub uninterp spec fn indexed_id(id: Seq<char>) -> Option<(Seq<char>, Seq<char>)>;

/// `Regex::captures` with the pattern `^(?<name>.*)~(?<index>\d+)$`; what
/// it captures is named, not stated. As the pattern is anchored at both
/// ends, a match is the whole id: the name, `~` and the index.
#[verifier::external_body]
fn index_captures(id: &str) -> (res: Option<(String, String)>)
    ensures
        res is Some <==> indexed_id(id@) is Some,
        res matches Some(c) ==> indexed_id(id@) == Some((c.0@, c.1@)),
        res matches Some(c) ==> id@ == c.0@ + "~"@ + c.1@,
{
    match regex::Regex::new(r"^(?<name>.*)~(?<index>\d+)$").unwrap().captures(id) {
        Some(c) => Some((c["name"].to_owned(), c["index"].to_owned())),
        None => None,
    }
}

/// A text without the index that an enum text may start with, as the regex
/// `^(?:(?:{index}|\(0*{index}\))(?:\s*:|\s+-)?\s+)([^\s]+)`, with the index
/// escaped, replaced by its group leaves it.
pub uninterp spec fn index_prefix_removed(index: Seq<char>, text: Seq<char>) -> Seq<char>;

/// The longest index for which the pattern above is built here. The pattern
/// holds the index twice, and regex refuses a pattern whose automaton
/// exceeds its size limit of 10 MiB, which an index of some ten thousand
/// characters stays well within and a far longer one exceeds; the importer
/// then panics.
pub open spec fn max_index_len() -> int {
    10000
}

/// `Regex::replace` with the pattern above, built for the index with
/// `regex::escape`, and the replacement `$1`; its result is named, not
/// stated.
#[verifier::external_body]
fn remove_index_prefix(index: &str, text: &str) -> (res: String)
    requires
        index@.len() <= max_index_len(),
    ensures
        res@ == index_prefix_removed(index@, text@),
{
    let index = regex::escape(index);
    let pattern = format!(r"^(?:(?:{index}|\(0*{index}\))(?:\s*:|\s+-)?\s+)([^\s]+)");
    regex::Regex::new(&pattern).unwrap().replace(text, "$1").into_owned()
}

/// Whether a text holds dashes only; the empty text does.
pub open spec fn only_dashes(text: Seq<char>) -> bool {
    forall|k: int| 0 <= k < text.len() ==> text[k] == '-'
}

/// `Regex::replace` with the pattern `^-*$` and an empty replacement. The
/// pattern matches a whole text of dashes, and no other text: without the
/// multi-line flag `$` matches at the end of the text only.
#[verifier::external_body]
fn remove_dash_line(text: &str) -> (res: String)
    ensures
        res@ == (if only_dashes(text@) {
            Seq::empty()
        } else {
            text@
        }),
{
    regex::Regex::new(r"^-*$").unwrap().replace(text, "").into_owned()
}

/// The view of an optional text.
pub open spec fn opt_view(o: Option<&str>) -> Option<Seq<char>> {
    match o {
        Some(s) => Some(s@),
        None => None,
    }
}

/// The index that an enum text may start with: the one of the translation
/// id where it has one (the hourly interval enum has a number in its name
/// that is no index), otherwise the given one.
pub open spec fn enum_index(translation_id: Option<Seq<char>>, index: Option<Seq<char>>) -> Option<
    Seq<char>,
> {
    match translation_id {
        Some(id) => match indexed_id(id) {
            Some(c) => if c.0 == "viessmann.eventvaluetype.K73_KonfiZpumpeIntervallFreigabe"@ {
                None
            } else {
                Some(c.1)
            },
            None => index,
        },
        None => index,
    }
}

/// An enum text without its leading index, empty where only dashes remain,
/// and trimmed.
pub open spec fn cleaned_enum_text(
    translation_id: Option<Seq<char>>,
    index: Option<Seq<char>>,
    text: Seq<char>,
) -> Seq<char> {
    trimmed(
        match enum_index(translation_id, index) {
            Some(i) => {
                let t = index_prefix_removed(i, text);
                if only_dashes(t) {
                    Seq::empty()
                } else {
                    t
                }
            },
            None => text,
        },
    )
}

/// Removes the index that the text of an enum value starts with. The
/// translation id and the index are at most `max_index_len` long, so that the
/// pattern built for the index stays within regex's size limit.
pub fn clean_enum_text(translation_id: Option<&str>, index: Option<&str>, text: String) -> (res:
    String)
    requires
        translation_id matches Some(id) ==> id@.len() <= max_index_len(),
        index matches Some(i) ==> i@.len() <= max_index_len(),
    ensures
        res@ == cleaned_enum_text(opt_view(translation_id), opt_view(index), text@),
{
    let captured = match translation_id {
        Some(id) => index_captures(id),
        None => None,
    };
    proof {
        reveal_strlit("~");
    }
    let found: Option<String> = match captured {
        Some(c) => {
            if str_eq(c.0.as_str(), "viessmann.eventvaluetype.K73_KonfiZpumpeIntervallFreigabe") {
                None
            } else {
                Some(c.1)
            }
        },
        None => match index {
            Some(i) => Some(String::from_str(i)),
            None => None,
        },
    };
    let cleaned = match found {
        Some(i) => {
            let t = remove_index_prefix(i.as_str(), text.as_str());
            remove_dash_line(t.as_str())
        },
        None => text,
    };
    String::from_str(trim(cleaned.as_str()))
}

/// The options of an option list of the vendor data, in snake case.
pub fn parse_option_list(text: &str) -> (res: Vec<String>)
    ensures
        text@.len() == 0 ==> res@.len() == 0,
        text@.len() > 0 ==> res@.len() == pieces(text@, ';').len(),
        text@.len() > 0 ==> forall|k: int|
            0 <= k < res@.len() ==> #[trigger] res@[k]@ == snake_cased(pieces(text@, ';')[k]),
{
    let mut out: Vec<String> = Vec::new();
    if text.unicode_len() == 0 {
        return out;
    }
    let parts = split(text, ';');
    let mut i: usize = 0;
    while i < parts.len()
        invariant
            parts@.len() == pieces(text@, ';').len(),
            forall|k: int| 0 <= k < parts@.len() ==> #[trigger] parts@[k]@ == pieces(text@, ';')[k],
            i <= parts@.len(),
            out@.len() == i,
            forall|k: int|
                0 <= k < i ==> #[trigger] out@[k]@ == snake_cased(pieces(text@, ';')[k]),
        decreases parts@.len() - i,
    {
        out.push(snake_case(parts[i].as_str()));
        i = i + 1;
    }
    out
}

/// The key text and the value text of an entry `key=value`.
pub open spec fn entry_parts(entry: Seq<char>) -> (Seq<char>, Seq<char>) {
    split_once_at(entry, '=')->0
}

/// Whether an entry of a value list has a key that is a `u8`, of a text
/// short enough to be looked for in its value.
pub open spec fn valid_entry(entry: Seq<char>) -> bool {
    &&& split_once_at(entry, '=') is Some
    &&& parsed_u8(entry_parts(entry).0) is Some
    &&& entry_parts(entry).0.len() <= max_index_len()
}

/// The value lists that the importer can read: empty, or entries
/// `key=value` apart by semicolons, each with a `u8` key of at most
/// `max_index_len` characters.
pub open spec fn valid_value_list(text: Seq<char>) -> bool {
    text.len() > 0 ==> forall|k: int|
        0 <= k < pieces(text, ';').len() ==> valid_entry(#[trigger] pieces(text, ';')[k])
}

/// The map of a value list: each entry's key to its cleaned text, a later
/// entry replacing an earlier one with the same key.
pub open spec fn value_map(entries: Seq<Seq<char>>) -> Map<u8, Seq<char>>
    decreases entries.len(),
{
    if entries.len() == 0 {
        Map::empty()
    } else {
        let (k, v) = entry_parts(entries.last());
        value_map(entries.drop_last()).insert(
            parsed_u8(k)->0,
            cleaned_enum_text(None, Some(k), v),
        )
    }
}

/// The map of a value list of the vendor data.
pub open spec fn value_list(text: Seq<char>) -> Map<u8, Seq<char>> {
    if text.len() == 0 {
        Map::empty()
    } else {
        value_map(pieces(text, ';'))
    }
}

/// Reads a value list of the vendor data: `key=value` entries apart by
/// semicolons, whose values may start with their key.
pub fn parse_value_list(text: &str) -> (res: std::collections::BTreeMap<u8, String>)
    requires
        valid_value_list(text@),
    ensures
        res@.dom() == value_list(text@).dom(),
        forall|k: u8| #[trigger] res@.contains_key(k) ==> res@[k]@ == value_list(text@)[k],
{
    let mut map: std::collections::BTreeMap<u8, String> = std::collections::BTreeMap::new();
    if text.unicode_len() == 0 {
        return map;
    }
    let parts = split(text, ';');
    let ghost entries = pieces(text@, ';');
    let mut i: usize = 0;
    while i < parts.len()
        invariant
            entries == pieces(text@, ';'),
            parts@.len() == entries.len(),
            forall|k: int| 0 <= k < parts@.len() ==> #[trigger] parts@[k]@ == entries[k],
            valid_value_list(text@),
            text@.len() > 0,
            i <= parts@.len(),
            map@.dom() == value_map(entries.subrange(0, i as int)).dom(),
            forall|k: u8| #[trigger]
                map@.contains_key(k) ==> map@[k]@ == value_map(entries.subrange(0, i as int))[k],
        decreases parts@.len() - i,
    {
        assert(valid_entry(entries[i as int]));
        let (key_text, value_text) = match split_once(parts[i].as_str(), '=') {
            Some(kv) => kv,
            None => {
                return map;
            },
        };
        let key = match parse_u8(key_text) {
            Some(k) => k,
            None => {
                return map;
            },
        };
        let value = clean_enum_text(None, Some(key_text), String::from_str(value_text));
        map.insert(key, value);
        assert(entries.subrange(0, i + 1).drop_last() =~= entries.subrange(0, i as int));
        i = i + 1;
    }
    assert(entries.subrange(0, parts@.len() as int) =~= entries);
    map
}

/// The text that stands for a data point: an id without the `~address`
/// that it may end with.
pub open spec fn without_address(s: Seq<char>, address: Seq<char>) -> Seq<char> {
    match before_suffix(s, seq!['~'] + address) {
        Some(rest) => rest,
        None => s,
    }
}

/// Removes the `~address` suffix of an id.
pub fn strip_address<'s>(s: &'s str, address: &str) -> (res: &'s str)
    ensures
        res@ == without_address(s@, address@),
{
    let mut suffix = String::new();
    crate::codegen::strings::push_char(&mut suffix, '~');
    suffix.append(address);
    assert(suffix@ =~= seq!['~'] + address@);
    match strip_suffix(s, suffix.as_str()) {
        Some(rest) => rest,
        None => s,
    }
}

} // verus!
