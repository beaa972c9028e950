//! Driver-side codec for Dynamixel smart servos.
//!
//! The servos speak two incompatible wire framings, here called protocol 1
//! and protocol 2.  This crate builds request packets (header, length,
//! instruction, parameters, checksum or CRC, and — for protocol 2 —
//! byte-stuffing of the reserved header sequence inside the payload),
//! parses response packets with an incremental state machine, and maps
//! typed registers onto read and write instructions.  Transport is left to
//! implementors of [`Interface`].

use vstd::prelude::*;

pub mod control_table;
pub mod dynamixel;
pub mod pro;
pub mod protocol1;
pub mod protocol2;

verus! {

/// An error originating from an [`Interface`].
#[derive(Debug, PartialEq, Eq, Clone, Copy, Structural)]
pub enum CommunicationError {
    TimedOut,
    UnsupportedBaud(BaudRate),
    Other,
}

/// Top-level error type, erasing the per-protocol detail.
#[derive(Debug, PartialEq, Eq, Clone, Copy, Structural)]
pub enum Error {
    Unfinished,
    /// An error originating from the [`Interface`].
    Communication(CommunicationError),
    Format,
    Processing,
}

/// Baud rates an interface should support.
///
/// May be extended and must not be matched against exhaustively.
#[derive(Debug, PartialEq, Eq, Clone, Copy, Structural)]
#[non_exhaustive]
pub enum BaudRate {
    /// Baud rate of 9 600
    Baud9600,
    /// Baud rate of 19 200
    Baud19200,
    /// Baud rate of 57 600
    Baud57600,
    /// Baud rate of 115 200
    Baud115200,
    /// Baud rate of 200 000
    Baud200000,
    /// Baud rate of 250 000
    Baud250000,
    /// Baud rate of 400 000
    Baud400000,
    /// Baud rate of 500 000
    Baud500000,
    /// Baud rate of 1 000 000
    Baud1000000,
    /// Baud rate of 2 000 000
    Baud2000000,
    /// Baud rate of 3 000 000
    Baud3000000,
    /// Baud rate of 4 000 000
    Baud4000000,
    /// Baud rate of 4 500 000
    Baud4500000,
    /// Baud rate of 10 500 000
    Baud10500000,
}

impl BaudRate {
    /// The rate in bits per second.
    pub open spec fn spec_bps(self) -> u32 {
        match self {
            BaudRate::Baud9600 => 9600,
            BaudRate::Baud19200 => 19200,
            BaudRate::Baud57600 => 57600,
            BaudRate::Baud115200 => 115200,
            BaudRate::Baud200000 => 200_000,
            BaudRate::Baud250000 => 250_000,
            BaudRate::Baud400000 => 400_000,
            BaudRate::Baud500000 => 500_000,
            BaudRate::Baud1000000 => 1_000_000,
            BaudRate::Baud2000000 => 2_000_000,
            BaudRate::Baud3000000 => 3_000_000,
            BaudRate::Baud4000000 => 4_000_000,
            BaudRate::Baud4500000 => 4_500_000,
            BaudRate::Baud10500000 => 10_500_000,
        }
    }

    /// The rate in bits per second.
    pub fn bps(&self) -> (r: u32)
        ensures
            r == self.spec_bps(),
    {
        match self {
            BaudRate::Baud9600 => 9600,
            BaudRate::Baud19200 => 19200,
            BaudRate::Baud57600 => 57600,
            BaudRate::Baud115200 => 115200,
            BaudRate::Baud200000 => 200_000,
            BaudRate::Baud250000 => 250_000,
            BaudRate::Baud400000 => 400_000,
            BaudRate::Baud500000 => 500_000,
            BaudRate::Baud1000000 => 1_000_000,
            BaudRate::Baud2000000 => 2_000_000,
            BaudRate::Baud3000000 => 3_000_000,
            BaudRate::Baud4000000 => 4_000_000,
            BaudRate::Baud4500000 => 4_500_000,
            BaudRate::Baud10500000 => 10_500_000,
        }
    }

    /// All rates, in the order discovery probes them.
    pub open spec fn spec_variants() -> Seq<BaudRate> {
        seq![
            BaudRate::Baud9600,
            BaudRate::Baud19200,
            BaudRate::Baud57600,
            BaudRate::Baud115200,
            BaudRate::Baud200000,
            BaudRate::Baud250000,
            BaudRate::Baud400000,
            BaudRate::Baud500000,
            BaudRate::Baud1000000,
            BaudRate::Baud2000000,
            BaudRate::Baud3000000,
            BaudRate::Baud4000000,
            BaudRate::Baud4500000,
            BaudRate::Baud10500000,
        ]
    }

    /// All rates, in the order discovery probes them.
    pub fn variants() -> (r: Vec<BaudRate>)
        ensures
            r@ == BaudRate::spec_variants(),
    {
        let mut v: Vec<BaudRate> = Vec::new();
        v.push(BaudRate::Baud9600);
        v.push(BaudRate::Baud19200);
        v.push(BaudRate::Baud57600);
        v.push(BaudRate::Baud115200);
        v.push(BaudRate::Baud200000);
        v.push(BaudRate::Baud250000);
        v.push(BaudRate::Baud400000);
        v.push(BaudRate::Baud500000);
        v.push(BaudRate::Baud1000000);
        v.push(BaudRate::Baud2000000);
        v.push(BaudRate::Baud3000000);
        v.push(BaudRate::Baud4000000);
        v.push(BaudRate::Baud4500000);
        v.push(BaudRate::Baud10500000);
        proof {
            assert(v@ =~= BaudRate::spec_variants());
        }
        v
    }
}

/// The transport contract the codec needs: a half-duplex byte channel with
/// a read timeout.  Implementations live outside this crate.
pub trait Interface {
    /// Set the baud rate of the interface.
    ///
    /// `BaudRate` must not be matched against exhaustively.
    fn set_baud_rate(&mut self, b: BaudRate) -> Result<(), CommunicationError>;

    /// Discard any buffered input.
    ///
    /// Whenever a new transmission is started, stale bytes from the read
    /// buffer need to be flushed out first.
    fn flush(&mut self);

    /// A blocking read of exactly `n` bytes.
    ///
    /// Either reads `n` bytes or fails; if bytes stop arriving for 100 ms
    /// or more this must fail with `CommunicationError::TimedOut`, or a
    /// silent servo would hang the caller forever.
    fn read(&mut self, n: usize) -> (r: Result<Vec<u8>, CommunicationError>)
        ensures
            r matches Ok(v) ==> v@.len() == n,
    ;

    /// A blocking write of every byte of `data`.
    ///
    /// After a transmission has started, the gap between two consecutive
    /// bytes must stay under 100 ms: the servo treats a longer gap as the
    /// start of a new transmission.
    fn write(&mut self, data: &[u8]) -> Result<(), CommunicationError>;
}

/// All information needed to connect to a servo, whatever it speaks.
#[derive(Debug, Clone, Copy, PartialEq, Eq, Structural)]
pub enum ServoInfo {
    Protocol1(protocol1::ServoInfo),
    Protocol2(protocol2::ServoInfo),
}

/// What discovery asserts of every servo it reports, whichever protocol
/// it answered in: see the per-protocol statements.
pub open spec fn discovered_servo_ok(info: ServoInfo) -> bool {
    match info {
        ServoInfo::Protocol1(si) => protocol1::discovered_servo_ok(si),
        ServoInfo::Protocol2(si) => protocol2::discovered_servo_ok(si),
    }
}

/// Discover every servo connected to the interface, both protocols, all
/// baud rates: the protocol 1 findings, then the protocol 2 findings.
/// Every reported servo was heard from: its entry restates a parsed pong.
#[verifier::loop_isolation(false)]
pub fn enumerate<I: Interface>(interface: &mut I) -> (r: Result<Vec<ServoInfo>, CommunicationError>)
    ensures
        r matches Ok(v) ==> forall|i: int|
            0 <= i < v@.len() ==> discovered_servo_ok(#[trigger] v@[i]),
{
    let mut servos: Vec<ServoInfo> = Vec::new();
    let found1 = match protocol1::enumerate(interface) {
        Ok(v) => v,
        Err(e) => {
            return Err(e);
        },
    };
    let found2 = match protocol2::enumerate(interface) {
        Ok(v) => v,
        Err(e) => {
            return Err(e);
        },
    };
    let mut i: usize = 0;
    while i < found1.len()
        invariant
            forall|k: int| 0 <= k < servos@.len() ==> discovered_servo_ok(#[trigger] servos@[k]),
        decreases found1@.len() - i,
    {
        servos.push(ServoInfo::Protocol1(found1[i]));
        i = i + 1;
    }
    let mut j: usize = 0;
    while j < found2.len()
        invariant
            forall|k: int| 0 <= k < servos@.len() ==> discovered_servo_ok(#[trigger] servos@[k]),
        decreases found2@.len() - j,
    {
        servos.push(ServoInfo::Protocol2(found2[j]));
        j = j + 1;
    }
    Ok(servos)
}

} // verus!
