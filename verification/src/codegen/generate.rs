//! Corrections and filters that the importer applies to the vendor data.
use vstd::prelude::*;
use vstd::string::StringExecFns;

use crate::codegen::cleaned::{DataPointType, EventType};
use crate::codegen::strings::{after_prefix, strip_prefix};
use crate::text::{starts_with, str_eq};

verus! {

/// The translation id that a misspelt id of the vendor data stands for.
pub open spec fn fixed_translation_id(id: Seq<char>) -> Seq<char> {
    if id == "viessmann-ess.eventvaluetype.AnwahlDrsosselklappe~0"@ {
        "viessmann-ess.eventvaluetype.AnwahlDrosselklappe~0"@
    } else if id == "viessmann-ess.eventvaluetype.AnwahlDrsosselklappe~1"@ {
        "viessmann-ess.eventvaluetype.AnwahlDrosselklappe~1"@
    } else if id == "viessmann.eventvaluetype.name.WPR3_SGReady_Funktionen~0"@ {
        "viessmann.eventvaluetype.WPR3_SGReady_Funktionen~0"@
    } else if id == "viessmann.eventvaluetype.name.WPR3_SGReady_Funktionen~1"@ {
        "viessmann.eventvaluetype.WPR3_SGReady_Funktionen~1"@
    } else if id == "viessmann.eventvaluetype.name.WPR3_SGReady_Funktionen~2"@ {
        "viessmann.eventvaluetype.WPR3_SGReady_Funktionen~2"@
    } else if id == "viessmann.eventvaluetype.name.WPR3_SGReady_Funktionen~3"@ {
        "viessmann.eventvaluetype.WPR3_SGReady_Funktionen~3"@
    } else if id == "viessmann.eventvaluetype.WPR3_Split.K43_Flagtoindicateoper_shortLWT~0"@ {
        "viessmann.eventvaluetype.WPR3_Split.K43_Flagtoindicateopen_shortLWT~0"@
    } else if id == "viessmann.eventvaluetype.WPR3_Split.K43_Flagtoindicateoper_shortLWT~2"@ {
        "viessmann.eventvaluetype.WPR3_Split.K43_Flagtoindicateopen_shortLWT~2"@
    } else if id == "viessmann.eventvaluetype.WPR3_Split.K43_Flagtoindicateoper_shortLWT~3"@ {
        "viessmann.eventvaluetype.WPR3_Split.K43_Flagtoindicateopen_shortLWT~3"@
    } else if id == "viessmann.eventvaluetype.K44_Flagtoindicateopen.shortICT~0"@ {
        "viessmann.eventvaluetype.K44_Flagtoindicateopen_shortICT~0"@
    } else if id == "viessmann.eventvaluetype.K44_Flagtoindicateopen.shortICT~2"@ {
        "viessmann.eventvaluetype.K44_Flagtoindicateopen_shortICT~2"@
    } else if id == "viessmann.eventvaluetype.K44_Flagtoindicateopen.shortICT~3"@ {
        "viessmann.eventvaluetype.K44_Flagtoindicateopen_shortICT~3"@
    } else if id == "viessmann.eventvaluetype.K45_Flagtoindicateoper/shortLWT~2"@ {
        "viessmann.eventvaluetype.K45_Flagtoindicateopen_shortICT~2"@
    } else if id == "viessmann.eventvaluetype.K45_Flagtoindicateoper/shortLWT~3"@ {
        "viessmann.eventvaluetype.K45_Flagtoindicateopen_shortICT~3"@
    } else {
        id
    }
}

/// The translation id that a value-list entry of the vendor data is shown with.
pub open spec fn fixed_value_list_id(id: Seq<char>) -> Seq<char> {
    if id == "viessmann.eventvaluetype.name.HO2B_Geraetetyp~8"@ {
        "viessmann.eventvaluetype.HO2B_Geraetetyp~8"@
    } else if id == "viessmann.eventvaluetype..SC100_SoftwareIndex~14"@ {
        "viessmann.eventvaluetype.SC100_SoftwareIndex~14"@
    } else if id == "viessmann.eventvaluetype.name.SR13_FktDrehzahlPumpe~3"@ {
        "viessmann.eventvaluetype.SR13_FktDrehzahlPumpe~3"@
    } else if id == "viessmann.eventvaluetype.Vitotwin_Fuehlereingang~15"@ {
        "viessmann.eventvaluetype.Vitotwin_Fuehlereingang~3"@
    } else if id == "viessmann.eventvaluetype.WPR3_Split.K43_Flagtoindicateoper_shortLWT~0"@ {
        "viessmann.eventvaluetype.WPR3_Split.K43_Flagtoindicateopen_shortLWT~0"@
    } else if id == "viessmann.eventvaluetype.WPR3_Split.K43_Flagtoindicateoper/shortLWT~3"@ {
        "viessmann.eventvaluetype.WPR3_Split.K43_Flagtoindicateopen_shortLWT~3"@
    } else if id == "viessmann.eventvaluetype.WPR3_Split.K43_Flagtoindicateoper/shortLWT~2"@ {
        "viessmann.eventvaluetype.WPR3_Split.K43_Flagtoindicateopen_shortLWT~2"@
    } else if id == "viessmann.eventvaluetype.K44_Flagtoindicateopen.shortICT~0"@ {
        "viessmann.eventvaluetype.K44_Flagtoindicateopen_shortICT~0"@
    } else if id == "viessmann.eventvaluetype.K45_Flagtoindicateopen_shortIRT~2"@ {
        "viessmann.eventvaluetype.K45_Flagtoindicateopen_shortICT~2"@
    } else if id == "viessmann.eventvaluetype.K45_Flagtoindicateopen_shortIRT~3"@ {
        "viessmann.eventvaluetype.K45_Flagtoindicateopen_shortICT~3"@
    } else if id == "viessmann.eventvaluetype.name.K4F_Protectionreason_0~4"@ {
        "viessmann.eventvaluetype.K4F_Protectionreason_0~4"@
    } else if id == "viessmann.eventvaluetype.WPR3_Split.KC0_Main_mode_variant~5"@ {
        "viessmann.eventvaluetype.WPR3_Split.KC0_Main_mode_variant~4"@
    } else if id == "viessmann.eventvaluetype.WPR3_Split.KC4_Main_mode_variant_diagnostics~2"@ {
        "viessmann.eventvaluetype.WPR3_Split.KC0_Main_mode_variant~2"@
    } else if id == "viessmann.eventvaluetype.WPR3_Split.KC4_Main_modevariant_diagnostics~0"@ {
        "viessmann.eventvaluetype.WPR3_Split.KC0_Main_mode_variant~0"@
    } else if id == "viessmann.eventvaluetype.WPR3_Split.KC4_Main_mode_variant_diagnostics~16"@ {
        "viessmann.eventvaluetype.WPR3_Split.KC0_Main_mode_variant~3"@
    } else if id == "viessmann.eventvaluetype.WPR3_Split.KC4_Main_mode_variant_diagnostics~1"@ {
        "viessmann.eventvaluetype.WPR3_Split.KC0_Main_mode_variant~1"@
    } else if id == "viessmann.eventvaluetype.name.WPR3_Split.KC5_Protection_code~3"@ {
        "viessmann.eventvaluetype.WPR3_Split.KC5_Protection_code~3"@
    } else if id == "viessmann.eventvaluetype.WPR3_Split.KE1_IFeel_mode_status~1"@ {
        "viessmann.eventvaluetype.WPR3_Split.KE1_IFeel_mode_status~2"@
    } else if id == "viessmann.eventvaluetype.WPR3_Split.KE4_Reset_NLOAD~1"@ {
        "viessmann.eventvaluetype.name.WPR3_Split.KE4_Reset_NLOAD~1"@
    } else if id == "viessmann.eventvaluetype.name.WPR3_Split.KEF_On_Off_Status~1"@ {
        "viessmann.eventvaluetype.WPR3_Split.KEF_On_Off_Status~1"@
    } else if id == "viessmann.eventvaluetype.WPR3_Split.KF1_self_test_jumper_1~1"@ {
        "viessmann.eventtype.name.WPR3_Split.KF1_self_test_jumper_1~1"@
    } else if id == "viessmann.eventvaluetype.WPR3_Split.KF10_jumper_10~0"@ {
        "viessmann.eventvaluetype.WPR3_Split.KF2_jumper_10~0"@
    } else if id == "viessmann.eventvaluetype.WPR3_Split.KF10_jumper_10~1"@ {
        "viessmann.eventvaluetype.WPR3_Split.KF2_jumper_10~1"@
    } else if id == "viessmann-ess.eventvaluetype.nciNetConfig~0"@ {
        "viessmann.eventvaluetype.nciNetConfig~0"@
    } else if id == "viessmann-ess.eventvaluetype.nciNetConfig~1"@ {
        "viessmann.eventvaluetype.nciNetConfig~1"@
    } else if id == "viessmann-ess.eventvaluetype.SNVTAlarm_alarm_type~0"@ {
        "viessmann-ess.eventvaluetype.ModulBetriebsart~3"@
    } else if id == "viessmann-ess.eventvaluetype.SNVTAlarm_alarm_type~1"@ {
        "viessmann-ess.eventvaluetype.ModulBetriebsart~3"@
    } else if id == "viessmann-ess.eventvaluetype.SNVTAlarm_alarm_type~2"@ {
        "viessmann-ess.eventvaluetype.ModulBetriebsart~3"@
    } else if id == "viessmann-ess.eventvaluetype.SNVTAlarm_alarm_type~4"@ {
        "viessmann-ess.eventvaluetype.ModulBetriebsart~3"@
    } else if id == "viessmann-ess.eventvaluetype.SNVTAlarm_alarm_type~5"@ {
        "viessmann-ess.eventvaluetype.ModulBetriebsart~3"@
    } else if id == "viessmann-ess.eventvaluetype.SNVTAlarm_alarm_type~6"@ {
        "viessmann-ess.eventvaluetype.ModulBetriebsart~3"@
    } else if id == "viessmann-ess.eventvaluetype.SNVTAlarm_alarm_type~7"@ {
        "viessmann-ess.eventvaluetype.ModulBetriebsart~3"@
    } else if id == "viessmann-ess.eventvaluetype.SNVTAlarm_alarm_type~8"@ {
        "viessmann-ess.eventvaluetype.ModulBetriebsart~3"@
    } else if id == "viessmann-ess.eventvaluetype.SNVTAlarm_alarm_type~9"@ {
        "viessmann-ess.eventvaluetype.ModulBetriebsart~3"@
    } else if id == "viessmann-ess.eventvaluetype.SNVTAlarm_alarm_type~10"@ {
        "viessmann-ess.eventvaluetype.ModulBetriebsart~3"@
    } else if id == "viessmann-ess.eventvaluetype.SNVTAlarm_alarm_type~11"@ {
        "viessmann-ess.eventvaluetype.ModulBetriebsart~3"@
    } else if id == "viessmann-ess.eventvaluetype.SNVTAlarm_alarm_type~12"@ {
        "viessmann-ess.eventvaluetype.ModulBetriebsart~3"@
    } else if id == "viessmann-ess.eventvaluetype.SNVTAlarm_alarm_type~13"@ {
        "viessmann-ess.eventvaluetype.ModulBetriebsart~3"@
    } else if id == "viessmann-ess.eventvaluetype.SNVTAlarm_alarm_type~14"@ {
        "viessmann-ess.eventvaluetype.ModulBetriebsart~3"@
    } else if id == "viessmann-ess.eventvaluetype.SNVTAlarm_alarm_type~15"@ {
        "viessmann-ess.eventvaluetype.ModulBetriebsart~3"@
    } else if id == "viessmann-ess.eventvaluetype.SNVTAlarm_alarm_type~-1"@ {
        "viessmann-ess.eventvaluetype.ModulBetriebsart~3"@
    } else if id == "viessmann-ess.eventvaluetype.SNVTAlarm_alarm_type~-2"@ {
        "viessmann-ess.eventvaluetype.ModulBetriebsart~3"@
    } else if id == "viessmann-ess.eventvaluetype.SNVTAlarm_alarm_type~-3"@ {
        "viessmann-ess.eventvaluetype.ModulBetriebsart~3"@
    } else if id == "viessmann-ess.eventvaluetype.SNVTAlarm_alarm_type~-4"@ {
        "viessmann-ess.eventvaluetype.ModulBetriebsart~3"@
    } else if id == "viessmann-ess.eventvaluetype.SNVTAlarm_alarm_type~-5"@ {
        "viessmann-ess.eventvaluetype.ModulBetriebsart~3"@
    } else if id == "viessmann-ess.eventvaluetype.SNVTAlarm_alarm_type~-6"@ {
        "viessmann-ess.eventvaluetype.ModulBetriebsart~3"@
    } else if id == "viessmann-ess.eventvaluetype.SNVTAlarm_alarm_type~-10"@ {
        "viessmann-ess.eventvaluetype.ModulBetriebsart~3"@
    } else if id == "viessmann-ess.eventvaluetype.SNVTAlarm_alarm_type~-11"@ {
        "viessmann-ess.eventvaluetype.ModulBetriebsart~3"@
    } else if id == "viessmann-ess.eventvaluetype.SNVTAlarm_alarm_type~-12"@ {
        "viessmann-ess.eventvaluetype.ModulBetriebsart~3"@
    } else if id == "viessmann-ess.eventvaluetype.SNVTAlarm_alarm_type~-13"@ {
        "viessmann-ess.eventvaluetype.ModulBetriebsart~3"@
    } else if id == "viessmann-ess.eventvaluetype.SNVTAlarm_priority_level~-1"@ {
        "viessmann-ess.eventvaluetype.ModulBetriebsart~3"@
    } else if id == "viessmann-ess.eventvaluetype.SNVTAlarm_priority_level~0"@ {
        "viessmann-ess.eventvaluetype.ModulBetriebsart~3"@
    } else if id == "viessmann-ess.eventvaluetype.SNVTAlarm_priority_level~1"@ {
        "viessmann-ess.eventvaluetype.ModulBetriebsart~3"@
    } else if id == "viessmann-ess.eventvaluetype.SNVTAlarm_priority_level~2"@ {
        "viessmann-ess.eventvaluetype.ModulBetriebsart~3"@
    } else if id == "viessmann-ess.eventvaluetype.SNVTAlarm_priority_level~3"@ {
        "viessmann-ess.eventvaluetype.ModulBetriebsart~3"@
    } else if id == "viessmann-ess.eventvaluetype.SNVTAlarm_priority_level~4"@ {
        "viessmann-ess.eventvaluetype.ModulBetriebsart~3"@
    } else if id == "viessmann-ess.eventvaluetype.SNVTAlarm_priority_level~5"@ {
        "viessmann-ess.eventvaluetype.ModulBetriebsart~3"@
    } else if id == "viessmann-ess.eventvaluetype.SNVTAlarm_priority_level~8"@ {
        "viessmann-ess.eventvaluetype.ModulBetriebsart~3"@
    } else if id == "viessmann-ess.eventvaluetype.SNVTAlarm_priority_level~7"@ {
        "viessmann-ess.eventvaluetype.ModulBetriebsart~3"@
    } else if id == "viessmann-ess.eventvaluetype.SNVTAlarm_priority_level~9"@ {
        "viessmann-ess.eventvaluetype.ModulBetriebsart~3"@
    } else if id == "viessmann-ess.eventvaluetype.SNVTAlarm_priority_level~10"@ {
        "viessmann-ess.eventvaluetype.ModulBetriebsart~3"@
    } else if id == "viessmann-ess.eventvaluetype.SNVTAlarm_priority_level~11"@ {
        "viessmann-ess.eventvaluetype.ModulBetriebsart~3"@
    } else {
        id
    }
}

/// Replaces a misspelt translation id with the one that the translations use.
pub fn translation_fixes(id: &str) -> (res: String)
    ensures
        res@ == fixed_translation_id(id@),
{
    let fixed: &str = {
        if str_eq(id, "viessmann-ess.eventvaluetype.AnwahlDrsosselklappe~0") {
            "viessmann-ess.eventvaluetype.AnwahlDrosselklappe~0"
        } else if str_eq(id, "viessmann-ess.eventvaluetype.AnwahlDrsosselklappe~1") {
            "viessmann-ess.eventvaluetype.AnwahlDrosselklappe~1"
        } else if str_eq(id, "viessmann.eventvaluetype.name.WPR3_SGReady_Funktionen~0") {
            "viessmann.eventvaluetype.WPR3_SGReady_Funktionen~0"
        } else if str_eq(id, "viessmann.eventvaluetype.name.WPR3_SGReady_Funktionen~1") {
            "viessmann.eventvaluetype.WPR3_SGReady_Funktionen~1"
        } else if str_eq(id, "viessmann.eventvaluetype.name.WPR3_SGReady_Funktionen~2") {
            "viessmann.eventvaluetype.WPR3_SGReady_Funktionen~2"
        } else if str_eq(id, "viessmann.eventvaluetype.name.WPR3_SGReady_Funktionen~3") {
            "viessmann.eventvaluetype.WPR3_SGReady_Funktionen~3"
        } else if str_eq(id, "viessmann.eventvaluetype.WPR3_Split.K43_Flagtoindicateoper_shortLWT~0") {
            "viessmann.eventvaluetype.WPR3_Split.K43_Flagtoindicateopen_shortLWT~0"
        } else if str_eq(id, "viessmann.eventvaluetype.WPR3_Split.K43_Flagtoindicateoper_shortLWT~2") {
            "viessmann.eventvaluetype.WPR3_Split.K43_Flagtoindicateopen_shortLWT~2"
        } else if str_eq(id, "viessmann.eventvaluetype.WPR3_Split.K43_Flagtoindicateoper_shortLWT~3") {
            "viessmann.eventvaluetype.WPR3_Split.K43_Flagtoindicateopen_shortLWT~3"
        } else if str_eq(id, "viessmann.eventvaluetype.K44_Flagtoindicateopen.shortICT~0") {
            "viessmann.eventvaluetype.K44_Flagtoindicateopen_shortICT~0"
        } else if str_eq(id, "viessmann.eventvaluetype.K44_Flagtoindicateopen.shortICT~2") {
            "viessmann.eventvaluetype.K44_Flagtoindicateopen_shortICT~2"
        } else if str_eq(id, "viessmann.eventvaluetype.K44_Flagtoindicateopen.shortICT~3") {
            "viessmann.eventvaluetype.K44_Flagtoindicateopen_shortICT~3"
        } else if str_eq(id, "viessmann.eventvaluetype.K45_Flagtoindicateoper/shortLWT~2") {
            "viessmann.eventvaluetype.K45_Flagtoindicateopen_shortICT~2"
        } else if str_eq(id, "viessmann.eventvaluetype.K45_Flagtoindicateoper/shortLWT~3") {
            "viessmann.eventvaluetype.K45_Flagtoindicateopen_shortICT~3"
        } else {
            id
        }
    };
    String::from_str(fixed)
}

/// The translation id that a value-list entry is shown with, where the vendor
/// data names one that does not exist.
pub fn value_list_fixes(id: &str) -> (res: &str)
    ensures
        res@ == fixed_value_list_id(id@),
{
    if str_eq(id, "viessmann.eventvaluetype.name.HO2B_Geraetetyp~8") {
        "viessmann.eventvaluetype.HO2B_Geraetetyp~8"
    } else if str_eq(id, "viessmann.eventvaluetype..SC100_SoftwareIndex~14") {
        "viessmann.eventvaluetype.SC100_SoftwareIndex~14"
    } else if str_eq(id, "viessmann.eventvaluetype.name.SR13_FktDrehzahlPumpe~3") {
        "viessmann.eventvaluetype.SR13_FktDrehzahlPumpe~3"
    } else if str_eq(id, "viessmann.eventvaluetype.Vitotwin_Fuehlereingang~15") {
        "viessmann.eventvaluetype.Vitotwin_Fuehlereingang~3"
    } else if str_eq(id, "viessmann.eventvaluetype.WPR3_Split.K43_Flagtoindicateoper_shortLWT~0") {
        "viessmann.eventvaluetype.WPR3_Split.K43_Flagtoindicateopen_shortLWT~0"
    } else if str_eq(id, "viessmann.eventvaluetype.WPR3_Split.K43_Flagtoindicateoper/shortLWT~3") {
        "viessmann.eventvaluetype.WPR3_Split.K43_Flagtoindicateopen_shortLWT~3"
    } else if str_eq(id, "viessmann.eventvaluetype.WPR3_Split.K43_Flagtoindicateoper/shortLWT~2") {
        "viessmann.eventvaluetype.WPR3_Split.K43_Flagtoindicateopen_shortLWT~2"
    } else if str_eq(id, "viessmann.eventvaluetype.K44_Flagtoindicateopen.shortICT~0") {
        "viessmann.eventvaluetype.K44_Flagtoindicateopen_shortICT~0"
    } else if str_eq(id, "viessmann.eventvaluetype.K45_Flagtoindicateopen_shortIRT~2") {
        "viessmann.eventvaluetype.K45_Flagtoindicateopen_shortICT~2"
    } else if str_eq(id, "viessmann.eventvaluetype.K45_Flagtoindicateopen_shortIRT~3") {
        "viessmann.eventvaluetype.K45_Flagtoindicateopen_shortICT~3"
    } else if str_eq(id, "viessmann.eventvaluetype.name.K4F_Protectionreason_0~4") {
        "viessmann.eventvaluetype.K4F_Protectionreason_0~4"
    } else if str_eq(id, "viessmann.eventvaluetype.WPR3_Split.KC0_Main_mode_variant~5") {
        "viessmann.eventvaluetype.WPR3_Split.KC0_Main_mode_variant~4"
    } else if str_eq(id, "viessmann.eventvaluetype.WPR3_Split.KC4_Main_mode_variant_diagnostics~2") {
        "viessmann.eventvaluetype.WPR3_Split.KC0_Main_mode_variant~2"
    } else if str_eq(id, "viessmann.eventvaluetype.WPR3_Split.KC4_Main_modevariant_diagnostics~0") {
        "viessmann.eventvaluetype.WPR3_Split.KC0_Main_mode_variant~0"
    } else if str_eq(id, "viessmann.eventvaluetype.WPR3_Split.KC4_Main_mode_variant_diagnostics~16") {
        "viessmann.eventvaluetype.WPR3_Split.KC0_Main_mode_variant~3"
    } else if str_eq(id, "viessmann.eventvaluetype.WPR3_Split.KC4_Main_mode_variant_diagnostics~1") {
        "viessmann.eventvaluetype.WPR3_Split.KC0_Main_mode_variant~1"
    } else if str_eq(id, "viessmann.eventvaluetype.name.WPR3_Split.KC5_Protection_code~3") {
        "viessmann.eventvaluetype.WPR3_Split.KC5_Protection_code~3"
    } else if str_eq(id, "viessmann.eventvaluetype.WPR3_Split.KE1_IFeel_mode_status~1") {
        "viessmann.eventvaluetype.WPR3_Split.KE1_IFeel_mode_status~2"
    } else if str_eq(id, "viessmann.eventvaluetype.WPR3_Split.KE4_Reset_NLOAD~1") {
        "viessmann.eventvaluetype.name.WPR3_Split.KE4_Reset_NLOAD~1"
    } else if str_eq(id, "viessmann.eventvaluetype.name.WPR3_Split.KEF_On_Off_Status~1") {
        "viessmann.eventvaluetype.WPR3_Split.KEF_On_Off_Status~1"
    } else if str_eq(id, "viessmann.eventvaluetype.WPR3_Split.KF1_self_test_jumper_1~1") {
        "viessmann.eventtype.name.WPR3_Split.KF1_self_test_jumper_1~1"
    } else if str_eq(id, "viessmann.eventvaluetype.WPR3_Split.KF10_jumper_10~0") {
        "viessmann.eventvaluetype.WPR3_Split.KF2_jumper_10~0"
    } else if str_eq(id, "viessmann.eventvaluetype.WPR3_Split.KF10_jumper_10~1") {
        "viessmann.eventvaluetype.WPR3_Split.KF2_jumper_10~1"
    } else if str_eq(id, "viessmann-ess.eventvaluetype.nciNetConfig~0") {
        "viessmann.eventvaluetype.nciNetConfig~0"
    } else if str_eq(id, "viessmann-ess.eventvaluetype.nciNetConfig~1") {
        "viessmann.eventvaluetype.nciNetConfig~1"
    } else if str_eq(id, "viessmann-ess.eventvaluetype.SNVTAlarm_alarm_type~0") {
        "viessmann-ess.eventvaluetype.ModulBetriebsart~3"
    } else if str_eq(id, "viessmann-ess.eventvaluetype.SNVTAlarm_alarm_type~1") {
        "viessmann-ess.eventvaluetype.ModulBetriebsart~3"
    } else if str_eq(id, "viessmann-ess.eventvaluetype.SNVTAlarm_alarm_type~2") {
        "viessmann-ess.eventvaluetype.ModulBetriebsart~3"
    } else if str_eq(id, "viessmann-ess.eventvaluetype.SNVTAlarm_alarm_type~4") {
        "viessmann-ess.eventvaluetype.ModulBetriebsart~3"
    } else if str_eq(id, "viessmann-ess.eventvaluetype.SNVTAlarm_alarm_type~5") {
        "viessmann-ess.eventvaluetype.ModulBetriebsart~3"
    } else if str_eq(id, "viessmann-ess.eventvaluetype.SNVTAlarm_alarm_type~6") {
        "viessmann-ess.eventvaluetype.ModulBetriebsart~3"
    } else if str_eq(id, "viessmann-ess.eventvaluetype.SNVTAlarm_alarm_type~7") {
        "viessmann-ess.eventvaluetype.ModulBetriebsart~3"
    } else if str_eq(id, "viessmann-ess.eventvaluetype.SNVTAlarm_alarm_type~8") {
        "viessmann-ess.eventvaluetype.ModulBetriebsart~3"
    } else if str_eq(id, "viessmann-ess.eventvaluetype.SNVTAlarm_alarm_type~9") {
        "viessmann-ess.eventvaluetype.ModulBetriebsart~3"
    } else if str_eq(id, "viessmann-ess.eventvaluetype.SNVTAlarm_alarm_type~10") {
        "viessmann-ess.eventvaluetype.ModulBetriebsart~3"
    } else if str_eq(id, "viessmann-ess.eventvaluetype.SNVTAlarm_alarm_type~11") {
        "viessmann-ess.eventvaluetype.ModulBetriebsart~3"
    } else if str_eq(id, "viessmann-ess.eventvaluetype.SNVTAlarm_alarm_type~12") {
        "viessmann-ess.eventvaluetype.ModulBetriebsart~3"
    } else if str_eq(id, "viessmann-ess.eventvaluetype.SNVTAlarm_alarm_type~13") {
        "viessmann-ess.eventvaluetype.ModulBetriebsart~3"
    } else if str_eq(id, "viessmann-ess.eventvaluetype.SNVTAlarm_alarm_type~14") {
        "viessmann-ess.eventvaluetype.ModulBetriebsart~3"
    } else if str_eq(id, "viessmann-ess.eventvaluetype.SNVTAlarm_alarm_type~15") {
        "viessmann-ess.eventvaluetype.ModulBetriebsart~3"
    } else if str_eq(id, "viessmann-ess.eventvaluetype.SNVTAlarm_alarm_type~-1") {
        "viessmann-ess.eventvaluetype.ModulBetriebsart~3"
    } else if str_eq(id, "viessmann-ess.eventvaluetype.SNVTAlarm_alarm_type~-2") {
        "viessmann-ess.eventvaluetype.ModulBetriebsart~3"
    } else if str_eq(id, "viessmann-ess.eventvaluetype.SNVTAlarm_alarm_type~-3") {
        "viessmann-ess.eventvaluetype.ModulBetriebsart~3"
    } else if str_eq(id, "viessmann-ess.eventvaluetype.SNVTAlarm_alarm_type~-4") {
        "viessmann-ess.eventvaluetype.ModulBetriebsart~3"
    } else if str_eq(id, "viessmann-ess.eventvaluetype.SNVTAlarm_alarm_type~-5") {
        "viessmann-ess.eventvaluetype.ModulBetriebsart~3"
    } else if str_eq(id, "viessmann-ess.eventvaluetype.SNVTAlarm_alarm_type~-6") {
        "viessmann-ess.eventvaluetype.ModulBetriebsart~3"
    } else if str_eq(id, "viessmann-ess.eventvaluetype.SNVTAlarm_alarm_type~-10") {
        "viessmann-ess.eventvaluetype.ModulBetriebsart~3"
    } else if str_eq(id, "viessmann-ess.eventvaluetype.SNVTAlarm_alarm_type~-11") {
        "viessmann-ess.eventvaluetype.ModulBetriebsart~3"
    } else if str_eq(id, "viessmann-ess.eventvaluetype.SNVTAlarm_alarm_type~-12") {
        "viessmann-ess.eventvaluetype.ModulBetriebsart~3"
    } else if str_eq(id, "viessmann-ess.eventvaluetype.SNVTAlarm_alarm_type~-13") {
        "viessmann-ess.eventvaluetype.ModulBetriebsart~3"
    } else if str_eq(id, "viessmann-ess.eventvaluetype.SNVTAlarm_priority_level~-1") {
        "viessmann-ess.eventvaluetype.ModulBetriebsart~3"
    } else if str_eq(id, "viessmann-ess.eventvaluetype.SNVTAlarm_priority_level~0") {
        "viessmann-ess.eventvaluetype.ModulBetriebsart~3"
    } else if str_eq(id, "viessmann-ess.eventvaluetype.SNVTAlarm_priority_level~1") {
        "viessmann-ess.eventvaluetype.ModulBetriebsart~3"
    } else if str_eq(id, "viessmann-ess.eventvaluetype.SNVTAlarm_priority_level~2") {
        "viessmann-ess.eventvaluetype.ModulBetriebsart~3"
    } else if str_eq(id, "viessmann-ess.eventvaluetype.SNVTAlarm_priority_level~3") {
        "viessmann-ess.eventvaluetype.ModulBetriebsart~3"
    } else if str_eq(id, "viessmann-ess.eventvaluetype.SNVTAlarm_priority_level~4") {
        "viessmann-ess.eventvaluetype.ModulBetriebsart~3"
    } else if str_eq(id, "viessmann-ess.eventvaluetype.SNVTAlarm_priority_level~5") {
        "viessmann-ess.eventvaluetype.ModulBetriebsart~3"
    } else if str_eq(id, "viessmann-ess.eventvaluetype.SNVTAlarm_priority_level~8") {
        "viessmann-ess.eventvaluetype.ModulBetriebsart~3"
    } else if str_eq(id, "viessmann-ess.eventvaluetype.SNVTAlarm_priority_level~7") {
        "viessmann-ess.eventvaluetype.ModulBetriebsart~3"
    } else if str_eq(id, "viessmann-ess.eventvaluetype.SNVTAlarm_priority_level~9") {
        "viessmann-ess.eventvaluetype.ModulBetriebsart~3"
    } else if str_eq(id, "viessmann-ess.eventvaluetype.SNVTAlarm_priority_level~10") {
        "viessmann-ess.eventvaluetype.ModulBetriebsart~3"
    } else if str_eq(id, "viessmann-ess.eventvaluetype.SNVTAlarm_priority_level~11") {
        "viessmann-ess.eventvaluetype.ModulBetriebsart~3"
    } else {
        id
    }
}

/// A text with a prefix removed where it has that prefix.
pub open spec fn without_prefix(s: Seq<char>, prefix: Seq<char>) -> Seq<char> {
    match after_prefix(s, prefix) {
        Some(rest) => rest,
        None => s,
    }
}

/// Whether a text starts with a prefix.
pub open spec fn has_prefix(s: Seq<char>, prefix: Seq<char>) -> bool {
    prefix.len() <= s.len() && s.subrange(0, prefix.len() as int) == prefix
}

/// The event type name that the vendor data means by a misspelt one.
pub open spec fn fixed_event_type_name(name: Seq<char>) -> Seq<char> {
    if name == "@@WW_Temperatur_Mitte_ab_Bit_0"@ {
        "WW_Temperatur_Mitte_ab_Bit_0"@
    } else if name == "@@WW_Temperatur_Mitte_ab_Bit_4"@ {
        "WW_Temperatur_Mitte_ab_Bit_4"@
    } else if name == "@@viessmann.eventvaluetype.name.WPR3_Split.KC0_Main_mode_variant"@ {
        "@@viessmann.eventtype.name.WPR3_Split.KC0_Main_mode_variant"@
    } else {
        name
    }
}

/// An event type name without the translation prefixes that the vendor data puts before it.
pub open spec fn cleaned_event_type_name(name: Seq<char>) -> Seq<char> {
    let name = fixed_event_type_name(name);
    let name = without_prefix(name, "@@viessmann.eventtype.name.viessmann.eventtype.name."@);
    let name = without_prefix(name, "@@viessmann.eventtype.name."@);
    let name = without_prefix(name, "@@viessmann-ess.eventtype.name.viessmann.eventtype.name."@);
    without_prefix(name, "@@viessmann-ess.eventtype.name."@)
}

/// Strips a prefix where the text has it.
fn strip_prefix_or_keep<'a>(s: &'a str, prefix: &str) -> (res: &'a str)
    ensures
        res@ == without_prefix(s@, prefix@),
{
    match strip_prefix(s, prefix) {
        Some(rest) => rest,
        None => s,
    }
}

/// The name of an event type, corrected and without its translation prefixes.
pub fn clean_event_type_name(name: &str) -> (res: &str)
    ensures
        res@ == cleaned_event_type_name(name@),
{
    let name: &str = if str_eq(name, "@@WW_Temperatur_Mitte_ab_Bit_0") {
        "WW_Temperatur_Mitte_ab_Bit_0"
    } else if str_eq(name, "@@WW_Temperatur_Mitte_ab_Bit_4") {
        "WW_Temperatur_Mitte_ab_Bit_4"
    } else if str_eq(name, "@@viessmann.eventvaluetype.name.WPR3_Split.KC0_Main_mode_variant") {
        "@@viessmann.eventtype.name.WPR3_Split.KC0_Main_mode_variant"
    } else {
        name
    };
    let name = strip_prefix_or_keep(name, "@@viessmann.eventtype.name.viessmann.eventtype.name.");
    let name = strip_prefix_or_keep(name, "@@viessmann.eventtype.name.");
    let name = strip_prefix_or_keep(name, "@@viessmann-ess.eventtype.name.viessmann.eventtype.name.");
    let name = strip_prefix_or_keep(name, "@@viessmann-ess.eventtype.name.");
    name
}

/// Whether the devices of a data point type are supported: those with an identification, apart from a few families.
pub open spec fn data_point_type_supported(address: Seq<char>, identified: bool) -> bool {
    &&& identified
    &&& !has_prefix(address, "@@BatteryEnergyStorageSystem."@)
    &&& !has_prefix(address, "BESS"@)
    &&& !has_prefix(address, "DEKATEL"@)
    &&& !has_prefix(address, "OpenTherm"@)
    &&& !has_prefix(address, "Vitocom"@)
    &&& !has_prefix(address, "Vitogate"@)
    &&& !has_prefix(address, "Vitowin"@)
}

/// Whether the importer keeps a data point type.
pub fn is_data_point_type_supported(data_point_type_address: &str, data_point_type: &DataPointType) -> (res: bool)
    ensures
        res == data_point_type_supported(data_point_type_address@, data_point_type.identification is Some),
{
    if data_point_type.identification.is_none() {
        return false;
    }
    if starts_with(data_point_type_address, "@@BatteryEnergyStorageSystem.") {
        return false;
    }
    if starts_with(data_point_type_address, "BESS") {
        return false;
    }
    if starts_with(data_point_type_address, "DEKATEL") {
        return false;
    }
    if starts_with(data_point_type_address, "OpenTherm") {
        return false;
    }
    if starts_with(data_point_type_address, "Vitocom") {
        return false;
    }
    if starts_with(data_point_type_address, "Vitogate") {
        return false;
    }
    if starts_with(data_point_type_address, "Vitowin") {
        return false;
    }
    true
}

/// Whether an event type id belongs to a family that the importer leaves out.
pub open spec fn event_type_excluded(id: Seq<char>) -> bool {
    ||| has_prefix(id, "Node_"@)
    ||| has_prefix(id, "nciNet"@)
    ||| has_prefix(id, "Ecotronic_LAN"@)
    ||| has_prefix(id, "HO2B_IP"@)
    ||| has_prefix(id, "HO2B_DynamicIP"@)
    ||| has_prefix(id, "HO2B_LAN"@)
    ||| has_prefix(id, "HO2B_Proxy"@)
    ||| has_prefix(id, "ecnsysEventType~VCOMLan"@)
    ||| has_prefix(id, "ecnsysLON"@)
    ||| has_prefix(id, "ecnsysVitocom"@)
    ||| has_prefix(id, "vcLan"@)
    ||| has_prefix(id, "vcNotfax"@)
    ||| has_prefix(id, "vlogVSNotfax"@)
}

/// Whether an event type is kept: it has an address and is read or written
/// directly, not through a function of its own.
pub open spec fn event_type_supported(id: Seq<char>, event_type: EventType) -> bool {
    &&& !event_type_excluded(id)
    &&& event_type.address is Some
    &&& (event_type.fc_read matches Some(f) && f@ == "virtual_read"@) || (event_type.fc_write matches Some(
        f,
    ) && f@ == "virtual_write"@)
}

/// Whether the importer keeps an event type.
pub fn is_event_type_supported(event_type_id: &str, event_type: &EventType) -> (res: bool)
    ensures
        res == event_type_supported(event_type_id@, *event_type),
{
    if starts_with(event_type_id, "Node_")
        || starts_with(event_type_id, "nciNet")
        || starts_with(event_type_id, "Ecotronic_LAN")
        || starts_with(event_type_id, "HO2B_IP")
        || starts_with(event_type_id, "HO2B_DynamicIP")
        || starts_with(event_type_id, "HO2B_LAN")
        || starts_with(event_type_id, "HO2B_Proxy")
        || starts_with(event_type_id, "ecnsysEventType~VCOMLan")
        || starts_with(event_type_id, "ecnsysLON")
        || starts_with(event_type_id, "ecnsysVitocom")
        || starts_with(event_type_id, "vcLan")
        || starts_with(event_type_id, "vcNotfax")
        || starts_with(event_type_id, "vlogVSNotfax") {
        return false;
    }
    if event_type.address.is_none() {
        return false;
    }
    let read = match &event_type.fc_read {
        Some(f) => str_eq(f.as_str(), "virtual_read"),
        None => false,
    };
    let write = match &event_type.fc_write {
        Some(f) => str_eq(f.as_str(), "virtual_write"),
        None => false,
    };
    read || write
}

} // verus!
