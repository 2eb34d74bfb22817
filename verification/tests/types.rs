use vcontrol::device::device_id::{DeviceId, DeviceIdF0};
use vcontrol::types::circuit_time::{CircuitTime, CircuitTimes, Time, TimeSpan};
use vcontrol::types::cycle_time::{two_digits, CycleTime, CycleTimes};
use vcontrol::types::device_id as value_id;
use vcontrol::types::device_ident::{DeviceIdent, DeviceIdentF0};

#[test]
fn time_bytes() {
    assert_eq!(Time::from_byte(0x33), Some(Time { hh: 6, mm: 30 }));
    assert_eq!(Time::from_byte(0xFF), None);
    assert_eq!(Time { hh: 22, mm: 0 }.to_byte(), 0xB0);
    let span = TimeSpan { from: Time { hh: 6, mm: 30 }, to: Time { hh: 22, mm: 0 } };
    assert_eq!(span.to_bytes(), [0x33, 0xB0]);
}

#[test]
fn circuit_time_bytes_read_back() {
    let bytes = [0x33, 0xB0, 0xFF, 0xFF, 0xFF, 0xFF, 0xFF, 0xFF];
    let day = CircuitTime::from_bytes(&bytes);
    assert_eq!(day.0[0], Some(TimeSpan { from: Time { hh: 6, mm: 30 }, to: Time { hh: 22, mm: 0 } }));
    assert_eq!(day.0[1], None);
    assert_eq!(day.to_bytes(), bytes);

    let mut week = [0xFFu8; 56];
    week[48] = 0x40;
    week[49] = 0x48;
    let times = CircuitTimes::from_bytes(&week);
    assert_eq!(times.sun.0[0], Some(TimeSpan { from: Time { hh: 8, mm: 0 }, to: Time { hh: 9, mm: 0 } }));
    assert_eq!(times.mon.0[0], None);
    assert_eq!(times.to_bytes(), week);
}

#[test]
fn cycle_time_text() {
    let day = CycleTime::from_bytes(&[0x33, 0xB0, 0xFF, 0xFF, 0x05, 0x06, 0x07, 0x08]);
    let times = day.times();
    assert_eq!((times[0].from.hh.as_str(), times[0].from.mm.as_str()), ("06", "30"));
    assert_eq!((times[0].to.hh.as_str(), times[0].to.mm.as_str()), ("22", "00"));
    assert_eq!((times[1].from.hh.as_str(), times[1].from.mm.as_str()), ("--", "--"));
    assert_eq!(day.byte_to_time(2), None);
    assert_eq!(day.byte_to_time(4), Some((0, 50)));
    assert_eq!(day.to_bytes(), [0x33, 0xB0, 0xFF, 0xFF, 0x05, 0x06, 0x07, 0x08]);
    assert_eq!(two_digits(7), "07");
    assert_eq!(two_digits(123), "123");

    let week: Vec<u8> = (0..56).collect();
    let cycles = CycleTimes::from_bytes(&week);
    assert_eq!(cycles.tue.to_bytes(), [8, 9, 10, 11, 12, 13, 14, 15]);
    assert_eq!(cycles.to_bytes().to_vec(), week);
}

#[test]
fn device_ids_read_back() {
    let bytes = [0x20, 0x92, 0x01, 0x07, 0x00, 0x00, 0x01, 0x5A];
    let id = DeviceId::from_bytes(&bytes);
    assert_eq!(id.id, 0x2092);
    assert_eq!(id.hardware_index, 0x01);
    assert_eq!(id.software_index, 0x07);
    assert_eq!(id.developer_version, 0x015A);
    assert_eq!(id.to_bytes(), bytes);
    assert_eq!(DeviceIdF0::from_bytes(&[0x20, 0x53]).0, 0x2053);

    let value = value_id::DeviceId::from_bytes(&bytes);
    assert_eq!(value.group_id, 0x20);
    assert_eq!(value.id, 0x92);
    assert_eq!(value.to_bytes(), bytes);
    assert_eq!(DeviceId::of_value(value), id);
    assert_eq!(value_id::DeviceIdF0::from_bytes(&[0x20, 0x53]).0, 0x2053);

    let ident = DeviceIdent::from_bytes(&bytes);
    assert_eq!(ident.id, 0x2092);
    assert_eq!(ident.to_bytes(), bytes);
    assert_eq!(DeviceIdentF0::from_bytes(&[0x01, 0x02]).0, 0x0102);
}

#[test]
fn circuit_times_bytes_settle_after_one_read() {
    let mut b = [0xffu8; 56];
    b[0] = 0x30;
    b[1] = 0xff;
    b[8] = 0x31;
    b[9] = 0x42;
    let once = CircuitTimes::from_bytes(&b).to_bytes();
    assert_eq!(&once[0..2], &[0xff, 0xff]);
    assert_eq!(&once[8..10], &[0x31, 0x42]);
    assert_eq!(&once[8..16], &CircuitTime::from_bytes(&b[8..16]).to_bytes());
    let twice = CircuitTimes::from_bytes(&once).to_bytes();
    assert_eq!(once, twice);
}
