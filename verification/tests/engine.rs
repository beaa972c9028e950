//! Transaction-engine tests against a scripted byte interface.

use std::collections::VecDeque;

use dynamixel::enumerate;
use dynamixel::pro::M4210S260R;
use dynamixel::protocol2;
use dynamixel::BaudRate;
use dynamixel::CommunicationError;
use dynamixel::Interface;
use dynamixel::ServoInfo;

/// A bench double for the serial bus: hands out scripted bytes, times out
/// when the script runs dry, and records what was written.
struct ScriptedBus {
    incoming: VecDeque<u8>,
    written: Vec<u8>,
    baud: Option<BaudRate>,
    baud_rejections_left: usize,
}

impl ScriptedBus {
    fn new(script: &[u8]) -> ScriptedBus {
        ScriptedBus {
            incoming: script.iter().copied().collect(),
            written: Vec::new(),
            baud: None,
            baud_rejections_left: 0,
        }
    }
}

impl Interface for ScriptedBus {
    fn set_baud_rate(&mut self, b: BaudRate) -> Result<(), CommunicationError> {
        if self.baud_rejections_left > 0 {
            self.baud_rejections_left -= 1;
            return Err(CommunicationError::UnsupportedBaud(b));
        }
        self.baud = Some(b);
        Ok(())
    }

    fn flush(&mut self) {}

    fn read(&mut self, n: usize) -> Result<Vec<u8>, CommunicationError> {
        if self.incoming.len() < n {
            return Err(CommunicationError::TimedOut);
        }
        Ok(self.incoming.drain(..n).collect())
    }

    fn write(&mut self, data: &[u8]) -> Result<(), CommunicationError> {
        self.written.extend_from_slice(data);
        Ok(())
    }
}

// the reference pong: id 1, model 0x0406, firmware 0x26
const PONG: [u8; 14] = [
    0xff, 0xff, 0xfd, 0x00, 0x01, 0x07, 0x00, 0x55, 0x00, 0x06, 0x04, 0x26, 0x65, 0x5d,
];

#[test]
fn ping_parses_the_pong() {
    let mut bus = ScriptedBus::new(&PONG);
    let mut servo = M4210S260R::new(protocol2::ServoID::new(1), BaudRate::Baud57600);
    let info = servo.ping(&mut bus).unwrap();
    assert_eq!(info.baud_rate, BaudRate::Baud57600);
    assert_eq!(info.model_number, 0x0406);
    assert_eq!(info.fw_version, 0x26);
    assert_eq!(info.id, protocol2::ServoID::new(1));
    // the ping request went out on the wire, byte-exact
    assert_eq!(
        bus.written,
        [0xff, 0xff, 0xfd, 0x00, 0x01, 0x03, 0x00, 0x01, 0x19, 0x4e]
    );
    assert_eq!(bus.baud, Some(BaudRate::Baud57600));
}

#[test]
fn ping_times_out_on_a_silent_bus() {
    let mut bus = ScriptedBus::new(&[]);
    let mut servo = M4210S260R::new(protocol2::ServoID::new(1), BaudRate::Baud57600);
    assert_eq!(
        servo.ping(&mut bus),
        Err(protocol2::Error::Communication(CommunicationError::TimedOut))
    );
}

#[test]
fn enumerate_collects_the_answering_servo() {
    // the interface rejects every baud change during the protocol 1 pass,
    // so those rates are skipped; the protocol 2 broadcast on the first
    // rate gets one pong, then silence everywhere
    let mut bus = ScriptedBus::new(&PONG);
    bus.baud_rejections_left = 14;
    let found = enumerate(&mut bus).unwrap();
    assert_eq!(found.len(), 1);
    match found[0] {
        ServoInfo::Protocol2(info) => {
            assert_eq!(info.baud_rate, BaudRate::Baud9600);
            assert_eq!(info.model_number, 0x0406);
            assert_eq!(info.fw_version, 0x26);
            assert_eq!(info.id, protocol2::ServoID::new(1));
        },
        ref other => panic!("expected a protocol 2 servo, got {:?}", other),
    }
}

#[test]
fn write_checks_the_acknowledgement() {
    // a write acknowledgement for id 1, no parameters
    let ack = [0xff, 0xff, 0xfd, 0x00, 0x01, 0x04, 0x00, 0x55, 0x00, 0xa1, 0x0c];
    let mut bus = ScriptedBus::new(&ack);
    let mut servo = M4210S260R::new(protocol2::ServoID::new(1), BaudRate::Baud57600);
    servo
        .write(
            &mut bus,
            dynamixel::pro::control_table::GoalPosition::new(0xabcd),
        )
        .unwrap();
    assert_eq!(
        bus.written,
        [0xff, 0xff, 0xfd, 0x00, 0x01, 0x09, 0x00, 0x03, 0x54, 0x02, 0xcd, 0xab, 0x00, 0x00,
            0x0d, 0xe5]
    );
}

#[test]
fn read_decodes_the_register() {
    // a read response for id 1 carrying goal position 0xa6
    let response = [
        0xff, 0xff, 0xfd, 0x00, 0x01, 0x08, 0x00, 0x55, 0x00, 0xa6, 0x00, 0x00, 0x00, 0x8c, 0xc0,
    ];
    let mut bus = ScriptedBus::new(&response);
    let mut servo = M4210S260R::new(protocol2::ServoID::new(1), BaudRate::Baud57600);
    let value: dynamixel::pro::control_table::GoalPosition = servo.read(&mut bus).unwrap();
    assert_eq!(value, dynamixel::pro::control_table::GoalPosition::new(0xa6));
}
