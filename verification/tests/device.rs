use vcontrol::access_mode::AccessMode;
use vcontrol::command::Command;
use vcontrol::commands::{command_by_name, merged_commands, readable_commands, system_command};
use vcontrol::data_type::DataType;
use vcontrol::device::device_id::{DeviceId, DeviceIdF0, DeviceIdRange};
use vcontrol::device::Device;
use vcontrol::error::Error;
use vcontrol::parameter::Parameter;
use vcontrol::scan::{is_listable, scan_chunk_len, scan_listing};
use vcontrol::server::property_flags;
use vcontrol::types::date_time::DateTime;
use vcontrol::types::error::Error as ErrorRecord;

fn command(addr: u16) -> Command {
    Command {
        addr,
        mode: AccessMode::Read,
        data_type: DataType::Int,
        parameter: Parameter::Int,
        block_count: None,
        block_len: 2,
        byte_len: 2,
        byte_pos: 0,
        bit_pos: 0,
        bit_len: None,
        unit: None,
    }
}

fn range(id: u16, hw: Option<u8>, sw: Option<u8>, f0: Option<u16>, f0_till: Option<u16>) -> DeviceIdRange {
    DeviceIdRange {
        id,
        hardware_index: hw,
        hardware_index_till: None,
        software_index: sw,
        software_index_till: None,
        f0,
        f0_till,
    }
}

fn device(name: &'static str) -> &'static Device {
    let commands: &'static [(&'static str, Command)] = Box::leak(vec![("outside_temperature", command(0x0800))].into_boxed_slice());
    Box::leak(Box::new(Device { name, commands, errors: &[(0x10, "Kurzschluss"), (0x18, "Unterbrechung")] }))
}

fn id(id: u16, hw: u8, sw: u8) -> DeviceId {
    DeviceId { id, hardware_index: hw, software_index: sw, protocol_version_lda: 0, protocol_version_rda: 0, developer_version: 0 }
}

#[test]
fn device_lookup() {
    let d = device("V200KW2");
    assert_eq!(d.name(), "V200KW2");
    assert_eq!(d.command("outside_temperature").map(|c| c.addr), Some(0x0800));
    assert!(d.command("missing").is_none());
    assert_eq!(d.error_text(0x18), Some("Unterbrechung"));
    assert_eq!(d.error_text(0x11), None);
    let record = ErrorRecord::new(0x10, DateTime::new(2020, 1, 1, 0, 0, 0).unwrap());
    assert_eq!(record.to_str(d), Some("Kurzschluss"));
}

#[test]
fn detection_prefers_exact_indices_then_the_last_range() {
    let a = device("A");
    let b = device("B");
    let c = device("C");
    let table: &'static [(DeviceIdRange, &'static Device)] = Box::leak(
        vec![(range(0x2092, None, None, None, None), a), (range(0x2092, Some(1), Some(7), None, None), b), (range(0x2092, None, None, None, None), c)]
            .into_boxed_slice(),
    );
    assert_eq!(Device::detect(table, id(0x2092, 1, 7), None).map(|d| d.name()), Some("B"));
    assert_eq!(Device::detect(table, id(0x2092, 2, 7), None).map(|d| d.name()), Some("C"));
    assert!(Device::detect(table, id(0x2093, 1, 7), None).is_none());
}

#[test]
fn detection_by_f0() {
    let a = device("A");
    let b = device("B");
    let table: &'static [(DeviceIdRange, &'static Device)] = Box::leak(
        vec![(range(0x00C0, None, None, Some(0x0100), Some(0x01FF)), a), (range(0x00C0, None, None, Some(0x0150), None), b)].into_boxed_slice(),
    );
    assert_eq!(Device::detect(table, id(0x00C0, 0, 200), Some(DeviceIdF0(0x0150))).map(|d| d.name()), Some("B"));
    assert_eq!(Device::detect(table, id(0x00C0, 0, 200), Some(DeviceIdF0(0x0120))).map(|d| d.name()), Some("A"));
    // Below software index 200 the F0 identifier does not decide.
    assert_eq!(Device::detect(table, id(0x00C0, 0, 100), Some(DeviceIdF0(0x0150))).map(|d| d.name()), Some("B"));
}

#[test]
fn commands_by_name() {
    let system: &'static [(&'static str, Command)] = Box::leak(vec![("device_id", command(0x00F8))].into_boxed_slice());
    let d = device("V200KW2");
    assert_eq!(system_command(system, "device_id").map(|c| c.addr), Some(0x00F8));
    assert!(system_command(system, "outside_temperature").is_none());
    assert_eq!(command_by_name(system, d, "device_id").unwrap().addr, 0x00F8);
    assert_eq!(command_by_name(system, d, "outside_temperature").unwrap().addr, 0x0800);
    match command_by_name(system, d, "nothing") {
        Err(Error::CommandNotAvailable(name)) => assert_eq!(name, "nothing"),
        other => panic!("unexpected {:?}", other.map(|c| c.addr)),
    }
}

#[test]
fn scan_lists_commands_and_stray_bytes() {
    let content = [0x12, 0x00, 0xff, 0xff, 0x34, 0x56, 0x00, 0x07];
    let system: &[(&'static str, Command)] = &[("word", command_at_addr(4, 2)), ("blank", command_at_addr(2, 2))];
    let device: &[(&'static str, Command)] = &[("override", command_at_addr(4, 3))];
    assert!(is_listable(&content, system, device));
    let lines = scan_listing(&content, system, device);
    assert_eq!(lines.len(), 3);
    assert_eq!((lines[0].addr, lines[0].command, lines[0].bytes.clone()), (0, None, vec![0x12]));
    assert_eq!((lines[1].addr, lines[1].command, lines[1].bytes.clone()), (4, Some("override"), vec![0x34, 0x56, 0x00]));
    assert_eq!((lines[2].addr, lines[2].command, lines[2].bytes.clone()), (7, None, vec![0x07]));
    let too_long: &[(&'static str, Command)] = &[("long", command_at_addr(6, 4))];
    assert!(!is_listable(&content, system, too_long));
}

fn command_at_addr(addr: u16, block_len: usize) -> Command {
    let mut c = command(addr);
    c.block_len = block_len;
    c.byte_len = block_len;
    c
}

fn leak(entries: Vec<(&'static str, Command)>) -> &'static [(&'static str, Command)] {
    Box::leak(entries.into_boxed_slice())
}

#[test]
fn merged_tables_hold_each_name_once_with_the_device_winning() {
    let mut write_only = command_at_addr(0x30, 1);
    write_only.mode = AccessMode::Write;
    let system = leak(vec![("b", command_at_addr(0x10, 1)), ("a", command_at_addr(0x11, 1))]);
    let device = leak(vec![("b", command_at_addr(0x20, 1)), ("c", write_only), ("b", command_at_addr(0x21, 1))]);
    let merged = merged_commands(system, device);
    let entries: Vec<(&str, u16)> = merged.iter().map(|(n, c)| (*n, c.addr)).collect();
    assert_eq!(entries, vec![("a", 0x11), ("b", 0x21), ("c", 0x30)]);
    let readable: Vec<&str> = readable_commands(&merged).iter().map(|(n, _)| *n).collect();
    assert_eq!(readable, vec!["a", "b"]);
}

#[test]
fn property_flags_and_scan_chunks() {
    assert_eq!(property_flags(AccessMode::Read), (true, false));
    assert_eq!(property_flags(AccessMode::Write), (false, true));
    assert_eq!(property_flags(AccessMode::ReadWrite), (false, false));
    assert_eq!(scan_chunk_len(0), 119);
    assert_eq!(scan_chunk_len(0xffff - 5), 5);
    assert_eq!(scan_chunk_len(0xffff), 0);
}
