use vcontrol::codegen::cleaned::{
    parse_description, parse_function, parse_unit, simplify_translation_text, Conversion, DataPointType, EventType,
};
use vcontrol::codegen::command::{parse_hex_u16, Command};
use vcontrol::codegen::default_value::{parse_default_value, read_default_value, DefaultValue};
use vcontrol::codegen::generate::{
    clean_event_type_name, is_data_point_type_supported, is_event_type_supported, translation_fixes, value_list_fixes,
};
use vcontrol::codegen::raw::{
    clean_enum_text, parse_conversion, parse_option_list, parse_translation_text, parse_value_list, strip_address,
    Culture, Cultures, DefaultCulture, DefaultCultures, DocumentElement, TextResource, TextResources,
};
use vcontrol::codegen::strings::{parse_u8, replace, split, trim, trim_lines};
use vcontrol::codegen::translations::{
    add_missing_enum_replace_value_translations, reverse_translations_raw, table_insert, translation_of,
    translations_raw,
};
use vcontrol::codegen::unique_mapping::UniqueMapping;

fn event_type(address: Option<&str>, fc_read: Option<&str>, fc_write: Option<&str>) -> EventType {
    EventType {
        access_mode: "read".to_string(),
        address: address.map(str::to_string),
        bit_length: None,
        bit_position: None,
        block_factor: None,
        block_length: None,
        byte_length: None,
        byte_position: None,
        conversion: None,
        fc_read: fc_read.map(str::to_string),
        fc_write: fc_write.map(str::to_string),
        mapping_type: None,
        parameter: None,
        sdk_data_type: None,
        unit: None,
        value_list: Vec::new(),
        value_type: None,
    }
}

fn pairs(entries: &[(&str, &str)]) -> Vec<(String, String)> {
    entries.iter().map(|(k, v)| (k.to_string(), v.to_string())).collect()
}

#[test]
fn conversions_and_units() {
    assert_eq!(parse_conversion("Div10"), Some("div10".to_string()));
    assert_eq!(parse_conversion("MultOffsetBCD"), Some("mul_offset_bcd".to_string()));
    assert_eq!(parse_conversion("NoConversion"), None);
    assert_eq!(parse_conversion(""), None);
    assert_eq!(parse_unit("ecnUnit.Grad C"), Some("°C"));
    assert_eq!(parse_unit("Sek."), Some("s"));
    assert_eq!(parse_unit("m3 pro h"), Some("m³/h"));
    assert_eq!(parse_unit("ecnUnit.Minus"), None);
    assert_eq!(parse_unit(""), None);
}

#[test]
fn id_fixes() {
    assert_eq!(
        translation_fixes("viessmann-ess.eventvaluetype.AnwahlDrsosselklappe~1"),
        "viessmann-ess.eventvaluetype.AnwahlDrosselklappe~1"
    );
    assert_eq!(translation_fixes("viessmann.eventvaluetype.Other~1"), "viessmann.eventvaluetype.Other~1");
    assert_eq!(
        value_list_fixes("viessmann-ess.eventvaluetype.SNVTAlarm_alarm_type~-3"),
        "viessmann-ess.eventvaluetype.ModulBetriebsart~3"
    );
    assert_eq!(value_list_fixes("unchanged~1"), "unchanged~1");
    assert_eq!(clean_event_type_name("@@viessmann.eventtype.name.HK1_Betriebsart"), "HK1_Betriebsart");
    assert_eq!(
        clean_event_type_name("@@viessmann.eventtype.name.viessmann.eventtype.name.WW_Temp"),
        "WW_Temp"
    );
    assert_eq!(clean_event_type_name("@@WW_Temperatur_Mitte_ab_Bit_0"), "WW_Temperatur_Mitte_ab_Bit_0");
    assert_eq!(
        clean_event_type_name("@@viessmann.eventvaluetype.name.WPR3_Split.KC0_Main_mode_variant"),
        "WPR3_Split.KC0_Main_mode_variant"
    );
    assert_eq!(clean_event_type_name("Plain"), "Plain");
}

#[test]
fn supported_types() {
    let mut dpt = DataPointType {
        address: None,
        event_types: vec![1, 2],
        f0: None,
        f0_till: None,
        identification: Some("2092".to_string()),
        identification_extension: None,
        identification_extension_till: None,
        name: "V200KW2".to_string(),
        options: vec![],
        status_event_type_id: 0,
    };
    assert!(is_data_point_type_supported("VScotHO1", &dpt));
    assert!(!is_data_point_type_supported("VitocomXY", &dpt));
    assert!(!is_data_point_type_supported("@@BatteryEnergyStorageSystem.X", &dpt));
    dpt.identification = None;
    assert!(!is_data_point_type_supported("VScotHO1", &dpt));

    let read = event_type(Some("0x0800"), Some("virtual_read"), None);
    assert!(is_event_type_supported("HK1_Temp", &read));
    assert!(!is_event_type_supported("Node_Status", &read));
    let write = event_type(Some("0x0800"), None, Some("virtual_write"));
    assert!(is_event_type_supported("HK1_Temp", &write));
    let other = event_type(Some("0x0800"), Some("gfa_read"), None);
    assert!(!is_event_type_supported("HK1_Temp", &other));
    let no_address = event_type(None, Some("virtual_read"), None);
    assert!(!is_event_type_supported("HK1_Temp", &no_address));
}

#[test]
fn text_helpers() {
    assert_eq!(trim("  a b \n"), "a b");
    assert_eq!(trim(" \t "), "");
    assert_eq!(simplify_translation_text("  Heizkreis \t 1\n aus "), "Heizkreis 1 aus");
    assert_eq!(replace("a##x##b##x##", "##x##", "-"), "a-b-");
    assert_eq!(split("a;b;;c", ';'), vec!["a", "b", "", "c"]);
    assert_eq!(split("", ';'), vec![""]);
    assert_eq!(trim_lines(" a \n\n b \n"), "a\n\nb");
    assert_eq!(trim_lines(""), "");
    assert_eq!(parse_u8("255"), Some(255));
    assert_eq!(parse_u8("+7"), Some(7));
    assert_eq!(parse_u8("256"), None);
    assert_eq!(parse_u8("-1"), None);
    assert_eq!(parse_u8(""), None);
    assert_eq!(strip_address("HK1_Temp~0x2306", "0x2306"), "HK1_Temp");
    assert_eq!(strip_address("HK1_Temp~0x2306", "0x2307"), "HK1_Temp~0x2306");
}

#[test]
fn translation_text() {
    assert_eq!(parse_translation_text("  Zeile 1##ecnnewline##  Zeile   2 ".to_string()), "Zeile 1\nZeile 2");
    assert_eq!(parse_translation_text("a##ecnsemicolon##b##ecntab##c".to_string()), "a;b\tc");
    assert_eq!(parse_translation_text("x##nl##".to_string()), "x");
}

#[test]
fn enum_texts() {
    assert_eq!(clean_enum_text(None, Some("1"), "1: Ein".to_string()), "Ein");
    assert_eq!(clean_enum_text(None, Some("1"), "(01) Ein".to_string()), "Ein");
    assert_eq!(clean_enum_text(None, Some("2"), "1: Ein".to_string()), "1: Ein");
    assert_eq!(clean_enum_text(None, Some("3"), "3 - Aus".to_string()), "Aus");
    assert_eq!(clean_enum_text(None, Some("3"), "3 - ---".to_string()), "");
    assert_eq!(clean_enum_text(None, Some("3"), "---".to_string()), "");
    assert_eq!(clean_enum_text(Some("viessmann.eventvaluetype.Mode~0"), None, "0 Aus".to_string()), "Aus");
    assert_eq!(
        clean_enum_text(Some("viessmann.eventvaluetype.K73_KonfiZpumpeIntervallFreigabe~2"), None, "2 mal".to_string()),
        "2 mal"
    );
    assert_eq!(clean_enum_text(None, None, "  text  ".to_string()), "text");
}

#[test]
fn option_and_value_lists() {
    assert_eq!(parse_option_list(""), Vec::<String>::new());
    assert_eq!(parse_option_list("HeizkreisEins;ZweiterKreis"), vec!["heizkreis_eins", "zweiter_kreis"]);
    let values = parse_value_list("0=0 Aus;1=1: Ein;1=Wieder");
    assert_eq!(values.len(), 2);
    assert_eq!(values.get(&0).map(String::as_str), Some("Aus"));
    assert_eq!(values.get(&1).map(String::as_str), Some("Wieder"));
    assert!(parse_value_list("").is_empty());
    assert_eq!(parse_function("".to_string()), None);
    assert_eq!(parse_function("undefined".to_string()), None);
    assert_eq!(parse_function("VirtualRead".to_string()), Some("virtual_read".to_string()));
}

#[test]
fn descriptions() {
    let translations = pairs(&[("id.one", "Eins"), ("viessmann.eventtype.HK1.description", "Kreis")]);
    let reverse = pairs(&[("Heizkreis eins", "id.heiz")]);
    assert_eq!(parse_description("  ", &translations, &reverse), None);
    assert_eq!(parse_description(" @@x ", &translations, &reverse), Some("@@x".to_string()));
    assert_eq!(parse_description("Heizkreis   eins", &translations, &reverse), Some("@@id.heiz".to_string()));
    assert_eq!(parse_description("id.one", &translations, &reverse), Some("@@id.one".to_string()));
    assert_eq!(
        parse_description("HK1", &translations, &reverse),
        Some("@@viessmann.eventtype.HK1.description".to_string())
    );
    assert_eq!(parse_description("unknown", &translations, &reverse), None);
}

#[test]
fn translation_tables() {
    let mut table = pairs(&[("a", "1"), ("b", "2")]);
    table_insert(&mut table, "b".to_string(), "3".to_string());
    table_insert(&mut table, "c".to_string(), "4".to_string());
    assert_eq!(translation_of(&table, "b"), Some("3"));
    assert_eq!(translation_of(&table, "c"), Some("4"));
    assert_eq!(translation_of(&table, "d"), None);

    let raw = vec![
        ("l1".to_string(), pairs(&[("de", " Text  A "), ("en", "Text A")])),
        ("l2".to_string(), pairs(&[("de", "  ")])),
        ("l3".to_string(), pairs(&[("de", "Text A")])),
    ];
    let reverse = reverse_translations_raw(&raw);
    assert_eq!(reverse, pairs(&[("Text A", "l3")]));
    assert_eq!(translation_of(&reverse, "Text A"), Some("l3"));
}

#[test]
fn missing_enum_translations() {
    let reverse = pairs(&[("Ein", "viessmann.eventvaluetype.Ein")]);

    let mut translations = pairs(&[("known", "Bekannt")]);
    let mut value = "@@known".to_string();
    add_missing_enum_replace_value_translations(&mut value, "whatever", &mut translations, &reverse);
    assert_eq!(value, "@@known");
    assert_eq!(translations.len(), 1);

    let mut value = "ecnStatusEventType~Fehler".to_string();
    add_missing_enum_replace_value_translations(&mut value, "ecnStatusEventType~Stoerung", &mut translations, &reverse);
    assert_eq!(translation_of(&translations, "ecnStatusEventType~Fehler"), Some("Stoerung"));

    let mut value = "@@viessmann.eventvaluetype.Mode~1".to_string();
    add_missing_enum_replace_value_translations(&mut value, "1 Ein", &mut translations, &reverse);
    assert_eq!(value, "@@viessmann.eventvaluetype.Ein");

    let mut value = "@@viessmann.eventvaluetype.Mode~2".to_string();
    add_missing_enum_replace_value_translations(&mut value, "", &mut translations, &reverse);
    assert_eq!(
        translation_of(&translations, "viessmann.eventvaluetype.Mode~2"),
        Some("@@viessmann.eventvaluetype.Mode~2")
    );
}

#[test]
fn text_resources() {
    let document = |cultures: Vec<Culture>, texts: Vec<TextResource>| DocumentElement {
        xmlns: String::new(),
        default_cultures: DefaultCultures { default_culture: DefaultCulture { company_id: 1, default_culture_id: 1 } },
        cultures: Cultures { culture: cultures },
        text_resources: TextResources { text_resource: texts },
    };
    let text = |culture_id: u8, label: &str, value: &str| TextResource {
        company_id: 1,
        culture_id,
        label: label.to_string(),
        value: value.to_string(),
    };
    let first = document(
        vec![Culture { id: 1, company_id: 1, name: "de".to_string() }],
        vec![text(1, "viessmann.eventvaluetype.Mode~0", "0 Aus##nl##")],
    );
    let second = document(
        vec![Culture { id: 2, company_id: 1, name: "en".to_string() }],
        vec![text(2, "label", "  Off  "), text(1, "label", "Aus")],
    );
    let entries = translations_raw(&[first, second]);
    assert_eq!(
        entries,
        vec![
            ("viessmann.eventvaluetype.Mode~0".to_string(), "de".to_string(), "Aus".to_string()),
            ("label".to_string(), "en".to_string(), "Off".to_string()),
            ("label".to_string(), "de".to_string(), "Aus".to_string()),
        ]
    );
}

#[test]
fn unique_mapping() {
    let map = pairs(&[("a", "Zwei"), ("b", "Eins"), ("c", "Zwei"), ("d", "Drei")]);
    let unique = UniqueMapping::create(&map);
    assert_eq!(unique.translations, vec!["Drei", "Eins", "Zwei"]);
    let ids: Vec<(&str, usize)> = unique.mapping.iter().map(|(k, v)| (k.as_str(), *v)).collect();
    assert_eq!(ids, vec![("a", 2), ("b", 1), ("c", 2), ("d", 0)]);
    for (key, id) in &unique.mapping {
        let text = &map.iter().find(|(k, _)| k == key).unwrap().1;
        assert_eq!(&unique.translations[*id], text);
    }
}

#[test]
fn hexadecimal_addresses() {
    assert_eq!(parse_hex_u16("0800"), Some(0x0800));
    assert_eq!(parse_hex_u16("+FfFf"), Some(0xffff));
    assert_eq!(parse_hex_u16("10000"), None);
    assert_eq!(parse_hex_u16(""), None);
    assert_eq!(parse_hex_u16("+"), None);
    assert_eq!(parse_hex_u16("12g"), None);
    assert_eq!(parse_hex_u16("-1"), None);
}

#[test]
fn command_from_event_type() {
    let mut e = event_type(Some("0x2306"), Some("virtual_read"), None);
    e.access_mode = "read_write".to_string();
    e.byte_length = Some(1);
    e.block_length = Some(1);
    e.conversion = Some(Conversion::S("div10".to_string()));
    e.parameter = Some("IntHighByteFirst".to_string());
    e.sdk_data_type = Some("Int".to_string());
    e.unit = Some("°C".to_string());
    e.value_list = vec![(0, "Aus".to_string()), (1, "Ein".to_string())];
    let mapping = UniqueMapping::create(&pairs(&[("HK1_Mode", "Aus"), ("HK2_Mode", "Ein")]));
    let c = Command::from_event_type("HK2_Mode".to_string(), e, &mapping);
    assert_eq!(c.addr, 0x2306);
    assert_eq!(c.data_type, "Int");
    assert!(matches!(c.conversion, Some(Conversion::S(ref n)) if n == "div10"));
    assert_eq!(c.mapping, Some(1));
    assert_eq!(c.mode, "read_write");
    assert_eq!(c.name, "HK2_Mode");
    assert_eq!(c.parameter, "int_high_byte_first");
    assert_eq!(c.byte_len, Some(1));
    assert_eq!(c.block_len, Some(1));
    assert_eq!(c.unit.as_deref(), Some("°C"));

    let mut d = event_type(Some("0x088E"), Some("virtual_read"), None);
    d.sdk_data_type = Some("DateTime".to_string());
    d.value_type = None;
    d.conversion = Some(Conversion::S("date_bcd".to_string()));
    d.parameter = Some("Array".to_string());
    let c = Command::from_event_type("Datum".to_string(), d, &mapping);
    assert_eq!(c.addr, 0x088e);
    assert_eq!(c.data_type, "Date");
    assert!(c.conversion.is_none());
    assert_eq!(c.mapping, None);

    let mut t = event_type(Some("0x088E"), Some("virtual_read"), None);
    t.value_type = Some("DateTime".to_string());
    t.sdk_data_type = Some("Int".to_string());
    t.conversion = Some(Conversion::S("date_time_bcd".to_string()));
    t.parameter = Some("Array".to_string());
    let c = Command::from_event_type("Uhrzeit".to_string(), t, &mapping);
    assert_eq!(c.data_type, "DateTime");
    assert!(c.conversion.is_none());
}

#[test]
fn default_values() {
    assert_eq!(parse_default_value(""), None);
    assert_eq!(parse_default_value("5"), Some(DefaultValue::Json("5".to_string())));
    assert_eq!(parse_default_value("0,5"), Some(DefaultValue::Json("0.5".to_string())));
    assert_eq!(parse_default_value("true"), Some(DefaultValue::Json("true".to_string())));
    assert_eq!(parse_default_value("01.02.2020"), Some(DefaultValue::Text("2020-02-01".to_string())));
    assert_eq!(parse_default_value("01,02,2020"), Some(DefaultValue::Text("2020-02-01".to_string())));
    assert_eq!(
        parse_default_value("01.02.2020  13:45:07"),
        Some(DefaultValue::Text("2020-02-01T13:45:07".to_string()))
    );
    assert_eq!(parse_default_value("0x0A1b"), Some(DefaultValue::Bytes(vec![0x0a, 0x1b])));
    assert_eq!(parse_default_value("0x"), Some(DefaultValue::Bytes(vec![])));
    assert_eq!(parse_default_value("--"), None);
    assert_eq!(parse_default_value("TBD"), None);
    assert_eq!(parse_default_value("Aus"), Some(DefaultValue::Text("Aus".to_string())));
    assert_eq!(read_default_value("Aus"), Some(Some(DefaultValue::Text("Aus".to_string()))));
    assert_eq!(read_default_value("0x0"), None);
    assert_eq!(read_default_value("0xZZ"), None);
    assert_eq!(read_default_value("\u{661}\u{662}.01.2020"), None);
    assert_eq!(read_default_value(""), Some(None));
}

#[test]
fn a_long_index_is_looked_for() {
    let index = format!("{}7", "0".repeat(9999));
    assert_eq!(index.len(), 10000);
    let text = format!("{} Aus", index);
    assert_eq!(clean_enum_text(None, Some(&index), text), "Aus");
    let list = format!("{}=({}) Ein", index, index);
    let map = parse_value_list(&list);
    assert_eq!(map.get(&7).map(String::as_str), Some("Ein"));
}

#[test]
fn unit_names_mean_the_same_with_the_prefix() {
    for u in ["Sek.", "Grad C", "Minus", "Prozent"] {
        assert_eq!(parse_unit(&format!("ecnUnit.{u}")), parse_unit(u));
    }
}

#[test]
fn a_table_keeps_its_ids_ascending_and_distinct() {
    let mut table: Vec<(String, String)> = Vec::new();
    table_insert(&mut table, "b".to_string(), "B".to_string());
    table_insert(&mut table, "a".to_string(), "A".to_string());
    table_insert(&mut table, "c".to_string(), "C".to_string());
    table_insert(&mut table, "a".to_string(), "A2".to_string());
    let ids: Vec<(&str, &str)> = table.iter().map(|(k, v)| (k.as_str(), v.as_str())).collect();
    assert_eq!(ids, vec![("a", "A2"), ("b", "B"), ("c", "C")]);
}

#[test]
fn a_long_index_of_wide_digits_is_looked_for() {
    let index = "\u{1d7d5}".repeat(9998);
    let id = format!("x~{}", index);
    assert_eq!(id.chars().count(), 10000);
    let text = format!("{} Aus", index);
    assert_eq!(clean_enum_text(Some(&id), None, text), "Aus");
}
