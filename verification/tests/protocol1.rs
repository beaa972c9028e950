//! Protocol 1 wire-format tests: byte-exact packets against the reference
//! vectors, and the status parser's error reporting.

use dynamixel::dynamixel::mx28::control_table::GoalPosition;
use dynamixel::protocol1::checksum::Checksum;
use dynamixel::protocol1::instruction::Ping;
use dynamixel::protocol1::instruction::Pong;
use dynamixel::protocol1::instruction::WriteData;
use dynamixel::protocol1::instruction::WriteDataResponse;
use dynamixel::protocol1::Error;
use dynamixel::protocol1::FormatError;
use dynamixel::protocol1::PacketID;
use dynamixel::protocol1::ProcessingError;
use dynamixel::protocol1::ServoID;

#[test]
fn test_ping() {
    assert_eq!(
        Ping::new(PacketID::unicast(1)).serialize(),
        [0xff, 0xff, 0x01, 0x02, 0x01, 0xfb]
    );
}

#[test]
fn test_pong() {
    assert_eq!(
        Pong::deserialize(&[0xff, 0xff, 0x01, 0x02, 0x00, 0xfc]),
        Ok(Pong {})
    );
}

#[test]
fn test_write() {
    assert_eq!(
        WriteData::new(PacketID::unicast(1), GoalPosition::new(0x123)).serialize(),
        [0xff, 0xff, 0x01, 0x05, 0x03, 30, 0x23, 0x01, 180, 0x00, 0x00]
    );
    assert_eq!(
        WriteData::new(PacketID::broadcast(), GoalPosition::new(0x123)).serialize(),
        [0xff, 0xff, 0xfe, 0x05, 0x03, 30, 0x23, 0x01, 183, 0x00, 0x00]
    );
}

#[test]
fn checksum_overflow_round_trips() {
    // the byte sum is 549, far past one byte; the checksum is the
    // complement of 549 mod 256 = 37
    assert_eq!(Checksum::calc(&[1, 5, 3, 30, 0xff, 0xff]).value(), !37u8);
    let packet = WriteData::new(PacketID::unicast(1), GoalPosition::new(0xffff)).serialize();
    assert_eq!(
        packet,
        [0xff, 0xff, 0x01, 0x05, 0x03, 30, 0xff, 0xff, 218, 0x00, 0x00]
    );
    // the receiving side recomputes the same overflowed sum and accepts
    assert_eq!(
        Checksum::calc(&packet[2..8]).value(),
        packet[8]
    );
}

#[test]
fn pong_with_bad_checksum_is_rejected() {
    assert_eq!(
        Pong::deserialize(&[0xff, 0xff, 0x01, 0x02, 0x00, 0x00]),
        Err(Error::Format(FormatError::Checksum))
    );
}

#[test]
fn corrupt_frame_never_surfaces_its_error_byte() {
    // the error byte claims an error, but the checksum is wrong: the
    // frame must be rejected as corrupt, not believed
    assert_eq!(
        Pong::deserialize(&[0xff, 0xff, 0x01, 0x02, 0x01, 0x00]),
        Err(Error::Format(FormatError::Checksum))
    );
    // the same frame with its checksum intact does surface the error
    assert!(matches!(
        Pong::deserialize(&[0xff, 0xff, 0x01, 0x02, 0x01, 0xfb]),
        Err(Error::Processing(_))
    ));
}

#[test]
fn pong_with_bad_header_is_rejected() {
    assert_eq!(
        Pong::deserialize(&[0xff, 0x00, 0x01, 0x02, 0x00, 0xfc]),
        Err(Error::Format(FormatError::Header))
    );
}

#[test]
fn pong_with_wrong_length_is_rejected() {
    assert_eq!(
        Pong::deserialize(&[0xff, 0xff, 0x01, 0x03, 0x00, 0xfb]),
        Err(Error::Format(FormatError::Length))
    );
    assert_eq!(
        Pong::deserialize(&[0xff, 0xff]),
        Err(Error::Format(FormatError::Length))
    );
}

#[test]
fn pong_with_out_of_range_id_is_rejected() {
    // 255 cannot be a servo identifier
    assert_eq!(
        Pong::deserialize(&[0xff, 0xff, 0xff, 0x02, 0x00, 0xfe]),
        Err(Error::Format(FormatError::ID))
    );
}

#[test]
fn status_with_reserved_error_bit_is_rejected() {
    assert_eq!(
        WriteDataResponse::deserialize(&[0xff, 0xff, 0x01, 0x02, 0x80, 0x7c]),
        Err(Error::Format(FormatError::InvalidError))
    );
}

#[test]
fn device_reported_error_bits_decode() {
    let r = WriteDataResponse::deserialize(&[0xff, 0xff, 0x01, 0x02, 0x51, 0xab]);
    let e = match r {
        Err(Error::Processing(e)) => e,
        other => panic!("expected a processing error, got {:?}", other),
    };
    assert!(e.instruction_error());
    assert!(!e.overload_error());
    assert!(e.checksum_error());
    assert!(!e.range_error());
    assert!(!e.overheating_error());
    assert!(!e.angle_limit_error());
    assert!(e.input_voltage_error());
    // range and overheating share bit 3
    let shared = ProcessingError::decode(0x08).unwrap().unwrap();
    assert!(shared.range_error() && shared.overheating_error());
}

#[test]
fn servo_id_boundaries_protocol1() {
    assert_eq!(ServoID::try_new(0).map(|s| s.value()), Some(0));
    assert_eq!(ServoID::try_new(252).map(|s| s.value()), Some(252));
    assert_eq!(ServoID::try_new(253).map(|s| s.value()), Some(253));
    assert!(ServoID::try_new(254).is_none());
    assert!(ServoID::try_new(255).is_none());
    assert_eq!(ServoID::new(0).value(), 0);
    assert_eq!(ServoID::new(253).value(), 253);
}
