//! Protocol 2 wire-format tests: the reference packets from the device
//! documentation, chunked parsing, stuffing, and error reporting.

use dynamixel::pro::control_table::GoalPosition;
use dynamixel::pro::control_table::GoalTorque;
use dynamixel::pro::control_table::PresentPosition;
use dynamixel::protocol2::instruction::Ping;
use dynamixel::protocol2::instruction::Pong;
use dynamixel::protocol2::instruction::Read;
use dynamixel::protocol2::instruction::ReadResponse;
use dynamixel::protocol2::instruction::Write;
use dynamixel::protocol2::instruction::WriteResponse;
use dynamixel::protocol2::DeserializationStatus;
use dynamixel::protocol2::Deserializer;
use dynamixel::protocol2::Error;
use dynamixel::protocol2::FormatError;
use dynamixel::protocol2::PacketID;
use dynamixel::protocol2::ProcessingError;
use dynamixel::protocol2::ServoID;

#[test]
fn instruction_test_ping() {
    let ping = Ping::new(PacketID::unicast(1));
    assert_eq!(
        ping.serialize(),
        [0xff, 0xff, 0xfd, 0x00, 0x01, 0x03, 0x00, 0x01, 0x19, 0x4e]
    );

    let ping = Ping::new(PacketID::broadcast());
    assert_eq!(
        ping.serialize(),
        [0xff, 0xff, 0xfd, 0x00, 0xfe, 0x03, 0x00, 0x01, 0x31, 0x42]
    );
}

#[test]
fn instruction_test_pong() {
    let mut deserializer = Deserializer::<Pong>::new();

    assert_eq!(
        deserializer.deserialize(&[
            0xff, 0xff, 0xfd, 0x00, 0x01, 0x07, 0x00, 0x55, 0x00, 0x06, 0x04, 0x026, 0x65, 0x5d
        ]),
        Ok(DeserializationStatus::Finished)
    );

    assert_eq!(
        deserializer.build(),
        Ok(Pong { model_number: 0x0406, fw_version: 0x26 })
    );
}

#[test]
fn test_pong_mixed() {
    let mut deserializer = Deserializer::<Pong>::new();

    assert_eq!(
        deserializer.deserialize(&[0xff, 0xff, 0xfd, 0x00, 0x01, 0x07, 0x00]),
        Ok(DeserializationStatus::Incomplete)
    );
    assert_eq!(deserializer.deserialize(&[0x55]), Ok(DeserializationStatus::Incomplete));
    assert_eq!(deserializer.deserialize(&[0x00]), Ok(DeserializationStatus::Incomplete));
    assert_eq!(deserializer.deserialize(&[0x18]), Ok(DeserializationStatus::Incomplete));
    assert_eq!(deserializer.deserialize(&[0xa9]), Ok(DeserializationStatus::Incomplete));
    assert_eq!(deserializer.deserialize(&[0x19]), Ok(DeserializationStatus::Incomplete));
    assert_eq!(deserializer.deserialize(&[0x76]), Ok(DeserializationStatus::Incomplete));

    assert!(!deserializer.is_finished());
    assert_eq!(deserializer.deserialize(&[0x32]), Ok(DeserializationStatus::Finished));
    assert!(deserializer.is_finished());

    assert_eq!(
        deserializer.build(),
        Ok(Pong { model_number: 0xa918, fw_version: 0x19 })
    );
}

#[test]
fn instruction_test_write() {
    let write = Write::new(PacketID::unicast(1), GoalPosition::new(0xabcd));
    assert_eq!(
        write.serialize(),
        [0xff, 0xff, 0xfd, 0x00, 0x01, 0x09, 0x00, 0x03, 0x54, 0x02, 0xcd, 0xab, 0x00, 0x00,
            0x0d, 0xe5]
    );

    // a write that needs stuffing: the length field grows by the inserted
    // byte
    let write = Write::new(PacketID::unicast(1), GoalPosition::new(0xfdffff));
    assert_eq!(
        write.serialize(),
        [0xff, 0xff, 0xfd, 0x00, 0x01, 0x0a, 0x00, 0x03, 0x54, 0x02, 0xff, 0xff, 0xfd, 0xfd,
            0x00, 33, 53]
    );
}

#[test]
fn test_write_response_byte() {
    let mut deserializer = Deserializer::<WriteResponse>::new();

    assert_eq!(deserializer.deserialize(&[0xff]), Ok(DeserializationStatus::Incomplete));
    assert_eq!(deserializer.deserialize(&[0xff]), Ok(DeserializationStatus::Incomplete));
    assert_eq!(deserializer.deserialize(&[0xfd]), Ok(DeserializationStatus::Incomplete));
    assert_eq!(deserializer.deserialize(&[0x00]), Ok(DeserializationStatus::Incomplete));
    assert_eq!(deserializer.deserialize(&[0x01]), Ok(DeserializationStatus::Incomplete));
    assert_eq!(deserializer.deserialize(&[0x04]), Ok(DeserializationStatus::Incomplete));
    assert_eq!(deserializer.deserialize(&[0x00]), Ok(DeserializationStatus::Incomplete));
    assert_eq!(deserializer.deserialize(&[0x55]), Ok(DeserializationStatus::Incomplete));
    assert_eq!(deserializer.deserialize(&[0x00]), Ok(DeserializationStatus::Incomplete));
    assert_eq!(deserializer.deserialize(&[0xa1]), Ok(DeserializationStatus::Incomplete));
    assert_eq!(deserializer.deserialize(&[0x0c]), Ok(DeserializationStatus::Finished));

    assert!(deserializer.is_finished());

    assert_eq!(deserializer.build(), Ok(WriteResponse {}));
}

#[test]
fn test_write_response_mixed() {
    let mut deserializer = Deserializer::<WriteResponse>::new();

    assert_eq!(
        deserializer.deserialize(&[0xff, 0xff, 0xfd, 0x00, 0x01, 0x04, 0x00]),
        Ok(DeserializationStatus::Incomplete)
    );
    assert_eq!(deserializer.deserialize(&[0x55]), Ok(DeserializationStatus::Incomplete));
    assert_eq!(deserializer.deserialize(&[0x00]), Ok(DeserializationStatus::Incomplete));
    assert_eq!(deserializer.deserialize(&[0xa1]), Ok(DeserializationStatus::Incomplete));

    assert!(!deserializer.is_finished());
    assert_eq!(deserializer.deserialize(&[0x0c]), Ok(DeserializationStatus::Finished));
    assert!(deserializer.is_finished());

    assert_eq!(deserializer.build(), Ok(WriteResponse {}));
}

#[test]
fn test_read() {
    let read = Read::<PresentPosition>::new(PacketID::unicast(1));
    assert_eq!(
        read.serialize(),
        [0xff, 0xff, 0xfd, 0x00, 0x01, 0x07, 0x00, 0x02, 611u16 as u8, (611u16 >> 8) as u8,
            0x04, 0x00, 27, 249]
    );
}

#[test]
fn test_read_response() {
    let mut deserializer = Deserializer::<ReadResponse<GoalPosition>>::new();

    assert_eq!(
        deserializer.deserialize(&[
            0xff, 0xff, 0xfd, 0x00, 0x01, 0x08, 0x00, 0x55, 0x00, 0xa6, 0x00, 0x00, 0x00, 0x8c,
            0xc0
        ]),
        Ok(DeserializationStatus::Finished)
    );

    assert_eq!(
        deserializer.build(),
        Ok(ReadResponse { value: GoalPosition::new(0x000000a6) })
    );
}

#[test]
fn payload_ending_before_stuff_boundary_emits_nothing() {
    // GoalTorque of -1 ends the payload with FF FF right before the CRC:
    // no stuff byte may appear, and the length field stays at 7
    let write = Write::new(PacketID::unicast(1), GoalTorque::new(-1));
    let packet = write.serialize();
    assert_eq!(packet.len(), 14);
    assert_eq!(packet[5], 0x07);
    assert_eq!(packet[6], 0x00);
    assert_eq!(&packet[7..12], &[0x03, 0x5c, 0x02, 0xff, 0xff]);
}

#[test]
fn servo_id_boundaries_protocol2() {
    assert_eq!(ServoID::try_new(0).map(|s| s.value()), Some(0));
    assert_eq!(ServoID::try_new(252).map(|s| s.value()), Some(252));
    assert!(ServoID::try_new(253).is_none());
    assert!(ServoID::try_new(254).is_none());
    assert_eq!(ServoID::new(0).value(), 0);
    assert_eq!(ServoID::new(252).value(), 252);
}

#[test]
fn header_errors_are_reported() {
    let mut d = Deserializer::<WriteResponse>::new();
    assert_eq!(
        d.deserialize(&[0x00, 0xff, 0xfd, 0x00, 0x01, 0x04, 0x00, 0x55, 0x00]),
        Err(FormatError::Header)
    );

    let mut d = Deserializer::<WriteResponse>::new();
    assert_eq!(
        d.deserialize(&[0xff, 0xff, 0xfd, 0x00, 0x01, 0x04, 0x00, 0x54, 0x00]),
        Err(FormatError::Instruction)
    );

    let mut d = Deserializer::<WriteResponse>::new();
    assert_eq!(
        d.deserialize(&[0xff, 0xff, 0xfd, 0x00, 0xfd, 0x04, 0x00, 0x55, 0x00]),
        Err(FormatError::ID)
    );

    let mut d = Deserializer::<WriteResponse>::new();
    assert_eq!(
        d.deserialize(&[0xff, 0xff, 0xfd, 0x00, 0x01, 0x04, 0x00, 0x55, 0x7f]),
        Err(FormatError::InvalidError(0x7f))
    );
}

#[test]
fn corrupt_crc_is_reported() {
    let mut d = Deserializer::<Pong>::new();
    assert_eq!(
        d.deserialize(&[
            0xff, 0xff, 0xfd, 0x00, 0x01, 0x07, 0x00, 0x55, 0x00, 0x06, 0x04, 0x26, 0x65, 0x5e
        ]),
        Err(FormatError::CRC)
    );
}

#[test]
fn missing_stuff_byte_is_reported() {
    let mut d = Deserializer::<WriteResponse>::new();
    assert_eq!(
        d.deserialize(&[0xff, 0xff, 0xfd, 0x00, 0x01, 0x08, 0x00, 0x55, 0x00]),
        Ok(DeserializationStatus::Incomplete)
    );
    // the reserved sequence inside the body must be followed by 0xfd
    assert_eq!(d.deserialize(&[0xff, 0xff, 0xfd, 0x00]), Err(FormatError::StuffByte));
}

#[test]
fn excess_bytes_are_reported() {
    let mut d = Deserializer::<WriteResponse>::new();
    assert_eq!(
        d.deserialize(&[0xff, 0xff, 0xfd, 0x00, 0x01, 0x04, 0x00, 0x55, 0x00, 0xa1, 0x0c]),
        Ok(DeserializationStatus::Finished)
    );
    assert_eq!(d.deserialize(&[0x00]), Err(FormatError::Length));
}

#[test]
fn device_reported_error_surfaces_in_build() {
    // same frame as the reference pong, but with error code 3 in the
    // status error byte; the CRC changes accordingly
    let mut crc = 0u16;
    let head = [0xffu8, 0xff, 0xfd, 0x00, 0x01, 0x07, 0x00, 0x55, 0x03, 0x06, 0x04, 0x26];
    for b in head {
        crc ^= (b as u16) << 8;
        for _ in 0..8 {
            if crc & 0x8000 != 0 {
                crc = (crc << 1) ^ 0x8005;
            } else {
                crc <<= 1;
            }
        }
    }
    let mut packet = head.to_vec();
    packet.push((crc & 0xff) as u8);
    packet.push((crc >> 8) as u8);

    let mut d = Deserializer::<Pong>::new();
    assert_eq!(d.deserialize(&packet), Ok(DeserializationStatus::Finished));
    assert_eq!(d.build(), Err(Error::Processing(ProcessingError::CRCError)));
}

#[test]
fn build_before_finish_is_unfinished() {
    let d = Deserializer::<Pong>::new();
    assert_eq!(d.build(), Err(Error::Unfinished));

    let mut d = Deserializer::<Pong>::new();
    assert_eq!(
        d.deserialize(&[0xff, 0xff, 0xfd, 0x00, 0x01, 0x07, 0x00, 0x55, 0x00, 0x06]),
        Ok(DeserializationStatus::Incomplete)
    );
    assert_eq!(d.build(), Err(Error::Unfinished));
}

#[test]
fn serialization_is_deterministic() {
    let a = Write::new(PacketID::unicast(1), GoalPosition::new(0xfdffff)).serialize();
    let b = Write::new(PacketID::unicast(1), GoalPosition::new(0xfdffff)).serialize();
    assert_eq!(a, b);
    let c = Ping::new(PacketID::broadcast()).serialize();
    let d = Ping::new(PacketID::broadcast()).serialize();
    assert_eq!(c, d);
}

#[test]
fn chunking_does_not_change_the_parse() {
    let packet = [
        0xffu8, 0xff, 0xfd, 0x00, 0x01, 0x07, 0x00, 0x55, 0x00, 0x06, 0x04, 0x26, 0x65, 0x5d,
    ];

    let mut whole = Deserializer::<Pong>::new();
    assert_eq!(whole.deserialize(&packet), Ok(DeserializationStatus::Finished));

    let mut bytewise = Deserializer::<Pong>::new();
    for b in packet {
        let _ = bytewise.deserialize(&[b]).unwrap();
    }
    assert!(bytewise.is_finished());

    let mut split = Deserializer::<Pong>::new();
    let _ = split.deserialize(&packet[..5]).unwrap();
    let _ = split.deserialize(&packet[5..11]).unwrap();
    assert_eq!(split.deserialize(&packet[11..]), Ok(DeserializationStatus::Finished));

    let expected = Ok(Pong { model_number: 0x0406, fw_version: 0x26 });
    assert_eq!(whole.build(), expected);
    assert_eq!(bytewise.build(), expected);
    assert_eq!(split.build(), expected);
}
