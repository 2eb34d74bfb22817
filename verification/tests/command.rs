use vcontrol::access_mode::AccessMode;
use vcontrol::command::{encode_int, Command};
use vcontrol::data_type::DataType;
use vcontrol::error::Error;
use vcontrol::parameter::Parameter;
use vcontrol::value::{ByteConversion, Value};

fn number_command(addr: u16, mode: AccessMode, data_type: DataType, parameter: Parameter, len: usize) -> Command {
    Command {
        addr,
        mode,
        data_type,
        parameter,
        block_count: None,
        block_len: len,
        byte_len: len,
        byte_pos: 0,
        bit_pos: 0,
        bit_len: None,
        unit: None,
    }
}

#[test]
fn parse_double_from_int() {
    let command = Command {
        addr: 0x0886,
        mode: AccessMode::Read,
        data_type: DataType::Double,
        parameter: Parameter::Int,
        block_count: None,
        block_len: 4,
        byte_len: 4,
        byte_pos: 0,
        bit_len: None,
        bit_pos: 0,
        unit: Some("h"),
    };
    let value = command.parse_value(&[0x00, 0x95, 0xBA, 0x0A]).unwrap();
    // The library reads the number; the hour conversion divides it by 3600.
    match value {
        Value::Number(n) => assert_eq!(n as f64 / 3600.0, 50000.0),
        other => panic!("unexpected {:?}", other),
    }
}

// `Ecotronic_0D00` specifies `RotateBytes` for `Int`, which doesn't seem to do anything.
#[test]
fn parse_rotate_bytes_int() {
    let command = Command {
        addr: 0x0D00,
        mode: AccessMode::Read,
        data_type: DataType::Int,
        parameter: Parameter::Int,
        block_count: None,
        block_len: 2,
        byte_len: 2,
        byte_pos: 0,
        bit_len: None,
        bit_pos: 0,
        unit: None,
    };

    let value = command.parse_value(&[0xb3, 0x04]).unwrap();
    let value = value.convert_bytes(ByteConversion::RotateBytes).unwrap();
    assert!(matches!(value, Value::Int(1203)));
}

#[test]
fn parse_numbers_keep_their_bit_pattern() {
    // Integers are read as the 32-bit pattern of their bytes: a two-byte
    // signed layout is not sign-extended, a four-byte one is.
    let signed = number_command(0x0800, AccessMode::Read, DataType::Int, Parameter::SInt, 2);
    assert!(matches!(signed.parse_value(&[0xFE, 0xFF]).unwrap(), Value::Int(65534)));
    let signed4 = number_command(0x0800, AccessMode::Read, DataType::Int, Parameter::SInt4, 4);
    assert!(matches!(signed4.parse_value(&[0xFE, 0xFF, 0xFF, 0xFF]).unwrap(), Value::Int(-2)));
    let high_first = number_command(0x0800, AccessMode::Read, DataType::Int, Parameter::IntHighByteFirst, 2);
    assert!(matches!(high_first.parse_value(&[0x01, 0x02]).unwrap(), Value::Int(258)));
    let byte = number_command(0x0800, AccessMode::Read, DataType::Byte, Parameter::SByte, 1);
    assert!(matches!(byte.parse_value(&[0x80]).unwrap(), Value::Int(128)));
    // A signed double is clamped to the range of its layout.
    let double = number_command(0x0800, AccessMode::Read, DataType::Double, Parameter::SInt, 2);
    assert!(matches!(double.parse_value(&[0xFE, 0xFF]).unwrap(), Value::Number(32767)));
}

#[test]
fn parse_all_ff_is_empty() {
    let command = number_command(0x0800, AccessMode::Read, DataType::Int, Parameter::Int, 2);
    assert!(matches!(command.parse_value(&[0xFF, 0xFF]).unwrap(), Value::Empty));
}

#[test]
fn encode_and_read_back_a_number() {
    let command = number_command(0x2323, AccessMode::ReadWrite, DataType::Int, Parameter::SInt4, 4);
    let bytes = command.encode_value(Value::Int(-300), None, None).unwrap();
    assert_eq!(bytes, vec![0xD4, 0xFE, 0xFF, 0xFF]);
    assert!(matches!(command.parse_value(&bytes).unwrap(), Value::Int(-300)));
    assert_eq!(encode_int(0x0102, Parameter::IntHighByteFirst), vec![0x01, 0x02]);
    assert_eq!(encode_int(-1, Parameter::SInt4), vec![0xFF, 0xFF, 0xFF, 0xFF]);
}

#[test]
fn encode_checks_bounds_and_mode() {
    let command = number_command(0x2323, AccessMode::ReadWrite, DataType::Int, Parameter::Int, 1);
    match command.encode_value(Value::Int(3), Some(5), Some(10)) {
        Err(Error::InvalidArgument(m)) => assert_eq!(m, "3 is less than minimum 5"),
        other => panic!("unexpected {:?}", other),
    }
    match command.encode_value(Value::Int(11), Some(5), Some(10)) {
        Err(Error::InvalidArgument(m)) => assert_eq!(m, "11 is greater than maximum 10"),
        other => panic!("unexpected {:?}", other),
    }
    assert_eq!(command.encode_value(Value::Int(7), Some(5), Some(10)).unwrap(), vec![7, 0]);

    let read_only = number_command(0x00F8, AccessMode::Read, DataType::Int, Parameter::Int, 2);
    match read_only.encode_value(Value::Int(1), None, None) {
        Err(Error::UnsupportedMode(m)) => assert_eq!(m, "Address 0x00F8 does not support writing."),
        other => panic!("unexpected {:?}", other),
    }
    let write_only = number_command(0x00F8, AccessMode::Write, DataType::Int, Parameter::Int, 2);
    match write_only.check_readable() {
        Err(Error::UnsupportedMode(m)) => assert_eq!(m, "Address 0x00F8 does not support reading."),
        other => panic!("unexpected {:?}", other),
    }
    assert!(read_only.check_readable().is_ok());
}

#[test]
fn encode_refuses_a_value_of_another_type() {
    let command = number_command(0x2323, AccessMode::ReadWrite, DataType::Int, Parameter::Int, 1);
    assert!(matches!(
        command.encode_value(Value::String("x".to_string()), None, None),
        Err(Error::InvalidArgument(_))
    ));
}

#[test]
fn parse_string_and_bytes() {
    let mut string = number_command(0x0100, AccessMode::Read, DataType::String, Parameter::StringNt, 4);
    string.byte_len = 4;
    match string.parse_value(b"ab\0c").unwrap() {
        Value::String(s) => assert_eq!(s, "ab"),
        other => panic!("unexpected {:?}", other),
    }
    let bytes = number_command(0x0100, AccessMode::Read, DataType::ByteArray, Parameter::Array, 3);
    match bytes.parse_value(&[1, 2, 3]).unwrap() {
        Value::ByteArray(b) => assert_eq!(b, vec![1, 2, 3]),
        other => panic!("unexpected {:?}", other),
    }
}

#[test]
fn a_read_only_command_refuses_any_value_first() {
    let read_only = number_command(0x0100, AccessMode::Read, DataType::String, Parameter::String, 4);
    match read_only.encode_value(Value::Int(5), None, None) {
        Err(Error::UnsupportedMode(_)) => {},
        other => panic!("unexpected {:?}", other),
    }
}

#[test]
fn a_value_below_the_minimum_is_refused_for_any_layout() {
    let command = number_command(0x0100, AccessMode::ReadWrite, DataType::Int, Parameter::Array, 4);
    match command.encode_value(Value::Int(3), Some(5), None) {
        Err(Error::InvalidArgument(_)) => {},
        other => panic!("unexpected {:?}", other),
    }
}

#[test]
fn all_ff_bytes_are_empty_for_any_layout() {
    let command = number_command(0x0100, AccessMode::Read, DataType::Byte, Parameter::Array, 2);
    assert!(matches!(command.parse_value(&[0xff, 0xff]), Ok(Value::Empty)));
}

#[test]
fn messages_write_their_numbers() {
    let command = number_command(0xABCD, AccessMode::ReadWrite, DataType::Int, Parameter::Int, 2);
    match command.encode_value(Value::Int(-12), Some(-5), None) {
        Err(Error::InvalidArgument(m)) => assert_eq!(m, "-12 is less than minimum -5"),
        other => panic!("unexpected {:?}", other),
    }
    match command.encode_value(Value::Int(100), None, Some(-1)) {
        Err(Error::InvalidArgument(m)) => assert_eq!(m, "100 is greater than maximum -1"),
        other => panic!("unexpected {:?}", other),
    }
    let read_only = number_command(0x0A0B, AccessMode::Read, DataType::Int, Parameter::Int, 2);
    match read_only.encode_value(Value::Int(1), None, None) {
        Err(Error::UnsupportedMode(m)) => assert_eq!(m, "Address 0x0A0B does not support writing."),
        other => panic!("unexpected {:?}", other),
    }
}
