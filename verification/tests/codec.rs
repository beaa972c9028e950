//! Register codec and stuffing-tracker tests.

use dynamixel::dynamixel::mx28::control_table::GoalPosition as Mx28GoalPosition;
use dynamixel::dynamixel::mx28::control_table::TorqueEnable;
use dynamixel::pro::control_table::GoalPosition as ProGoalPosition;
use dynamixel::pro::control_table::GoalTorque;
use dynamixel::protocol1::ReadRegister as P1ReadRegister;
use dynamixel::protocol1::WriteRegister as P1WriteRegister;
use dynamixel::protocol2::bit_stuffer::BitStuffer;
use dynamixel::protocol2::ReadRegister;
use dynamixel::protocol2::WriteRegister;
use dynamixel::BaudRate;

#[test]
fn it_works() {
    assert_eq!(2 + 2, 4);
}

#[test]
fn mx28_registers_round_trip() {
    let g = Mx28GoalPosition::new(0xabcd);
    let bytes = g.serialize();
    assert_eq!(bytes, [0xcd, 0xab, 0x00, 0x00]);
    assert_eq!(Mx28GoalPosition::deserialize(&bytes[..2]), g);

    let t = TorqueEnable::new(true);
    assert_eq!(t.serialize(), [0x01, 0x00, 0x00, 0x00]);
    assert_eq!(TorqueEnable::deserialize(&t.serialize()[..1]), t);
}

#[test]
fn pro_registers_round_trip() {
    let g = ProGoalPosition::new(-123456);
    let bytes = g.serialize();
    assert_eq!(bytes, (-123456i32).to_le_bytes());
    assert_eq!(ProGoalPosition::deserialize(&bytes), g);

    let t = GoalTorque::new(-2);
    assert_eq!(t.serialize(), [0xfe, 0xff, 0x00, 0x00]);
    assert_eq!(GoalTorque::deserialize(&t.serialize()[..2]), t);
}

#[test]
fn reserved_sequence_triggers_exactly_one_stuff_byte() {
    // walk the header, then the reserved sequence: the tracker demands a
    // stuff byte exactly once
    let mut tracker = BitStuffer::new();
    for b in [0xffu8, 0xff, 0xfd, 0x00] {
        tracker = tracker.add_byte(b).unwrap();
        assert!(!tracker.stuff_next());
    }
    tracker = tracker.add_byte(0xff).unwrap();
    assert!(!tracker.stuff_next());
    tracker = tracker.add_byte(0xff).unwrap();
    assert!(!tracker.stuff_next());
    tracker = tracker.add_byte(0xfd).unwrap();
    assert!(tracker.stuff_next());
    tracker = tracker.add_byte(0xfd).unwrap();
    assert!(!tracker.stuff_next());
}

#[test]
fn missing_stuff_byte_stops_the_tracker() {
    let mut tracker = BitStuffer::new();
    for b in [0xffu8, 0xff, 0xfd, 0x00, 0xff, 0xff, 0xfd] {
        tracker = tracker.add_byte(b).unwrap();
    }
    assert!(tracker.stuff_next());
    assert!(tracker.add_byte(0x00).is_err());
}

#[test]
fn baud_rates_enumerate_in_probe_order() {
    let rates = BaudRate::variants();
    assert_eq!(rates.len(), 14);
    assert_eq!(rates[0], BaudRate::Baud9600);
    assert_eq!(rates[0].bps(), 9_600);
    assert_eq!(rates[8].bps(), 1_000_000);
    assert_eq!(rates[13], BaudRate::Baud10500000);
    assert_eq!(rates[13].bps(), 10_500_000);
}
