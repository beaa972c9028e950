//! The MX-28 servo: a protocol 1 device, model number 0x001D.

use vstd::prelude::*;

pub mod control_table;

use crate::protocol1;
use crate::protocol1::instruction;
use crate::protocol1::Status;
use crate::BaudRate;
use crate::Interface;

verus! {

/// The model number reported for this device.
pub const MX28_MODEL_NUMBER: u16 = 0x001D;

/// A handle on one MX-28 servo: its identifier and the baud rate it
/// listens at.  It owns no transport; the interface is passed in per
/// operation, so one bus can serve many servos.
pub struct MX28 {
    pub id: protocol1::ServoID,
    pub baudrate: BaudRate,
}

impl MX28 {
    /// A handle, without pinging or any other check that the servo exists.
    pub fn new(id: protocol1::ServoID, baudrate: BaudRate) -> (r: MX28)
        ensures
            r.id == id,
            r.baudrate == baudrate,
    {
        MX28 { id, baudrate }
    }

    /// Ping the servo: `Ok(())` only if some complete buffer parsed as a
    /// well-formed, error-free pong.
    pub fn ping<I: Interface>(&mut self, interface: &mut I) -> (r: Result<(), protocol1::Error>)
        ensures
            r is Ok ==> exists|bytes: Seq<u8>|
                (#[trigger] protocol1::spec_parse_status(bytes, 2)) is Ok,
    {
        match interface.set_baud_rate(self.baudrate) {
            Ok(()) => {},
            Err(e) => {
                return Err(protocol1::Error::Communication(e));
            },
        }
        interface.flush();
        let ping = instruction::Ping::new(protocol1::PacketID::from_servo(self.id));
        let packet = ping.serialize();
        match interface.write(packet.as_slice()) {
            Ok(()) => {},
            Err(e) => {
                return Err(protocol1::Error::Communication(e));
            },
        }
        let response = match protocol1::read_response(interface) {
            Ok(v) => v,
            Err(e) => {
                return Err(protocol1::Error::Communication(e));
            },
        };
        match protocol1::parse_status::<instruction::Pong>(response.as_slice()) {
            Ok(_) => {
                proof {
                    assert(protocol1::spec_parse_status(response@, 2) is Ok);
                }
                Ok(())
            },
            Err(e) => Err(e),
        }
    }

    /// Write `register` to the servo and wait for its acknowledgement:
    /// `Ok` only after a complete, checksum-clean status with no
    /// device-reported error came back.
    pub fn write_data<I: Interface, W: control_table::WriteRegister>(
        &mut self,
        interface: &mut I,
        register: W,
    ) -> (r: Result<(), protocol1::Error>)
        ensures
            r is Ok ==> exists|bytes: Seq<u8>|
                (#[trigger] protocol1::spec_parse_status(bytes, 2)) is Ok,
    {
        proof {
            W::size_bounds();
        }
        match interface.set_baud_rate(self.baudrate) {
            Ok(()) => {},
            Err(e) => {
                return Err(protocol1::Error::Communication(e));
            },
        }
        interface.flush();
        let write = instruction::WriteData::new(
            protocol1::PacketID::from_servo(self.id),
            register,
        );
        let packet = write.serialize();
        // the buffer is padded to the widest packet; send only the packet
        let used = vstd::slice::slice_subrange(packet.as_slice(), 0, 7 + W::size() as usize);
        match interface.write(used) {
            Ok(()) => {},
            Err(e) => {
                return Err(protocol1::Error::Communication(e));
            },
        }
        let response = match protocol1::read_response(interface) {
            Ok(v) => v,
            Err(e) => {
                return Err(protocol1::Error::Communication(e));
            },
        };
        match protocol1::parse_status::<instruction::WriteDataResponse>(response.as_slice()) {
            Ok(_) => {
                proof {
                    assert(protocol1::spec_parse_status(response@, 2) is Ok);
                }
                Ok(())
            },
            Err(e) => Err(e),
        }
    }

    /// Read register `R` from the servo.  Any value handed back was
    /// decoded, by the register's own codec, from a status packet that
    /// parsed whole.
    pub fn read_data<I: Interface, R: control_table::ReadRegister>(
        &mut self,
        interface: &mut I,
    ) -> (r: Result<R, protocol1::Error>)
        ensures
            r matches Ok(v) ==> exists|bytes: Seq<u8>|
                #![trigger protocol1::spec_parse_status(bytes, instruction::ReadDataResponse::<R>::spec_length())]
                protocol1::spec_parse_status(
                    bytes,
                    instruction::ReadDataResponse::<R>::spec_length(),
                ) matches Ok(p) && v == R::spec_deserialize(p.1),
    {
        match interface.set_baud_rate(self.baudrate) {
            Ok(()) => {},
            Err(e) => {
                return Err(protocol1::Error::Communication(e));
            },
        }
        interface.flush();
        let read = instruction::ReadData::<R>::new(protocol1::PacketID::from_servo(self.id));
        let packet = read.serialize();
        match interface.write(packet.as_slice()) {
            Ok(()) => {},
            Err(e) => {
                return Err(protocol1::Error::Communication(e));
            },
        }
        let response = match protocol1::read_response(interface) {
            Ok(v) => v,
            Err(e) => {
                return Err(protocol1::Error::Communication(e));
            },
        };
        match protocol1::parse_status::<instruction::ReadDataResponse<R>>(response.as_slice()) {
            Ok((resp, _)) => {
                proof {
                    let bytes = response@;
                    assert(protocol1::spec_parse_status(
                        bytes,
                        instruction::ReadDataResponse::<R>::spec_length(),
                    ) matches Ok(p) && resp.value == R::spec_deserialize(p.1));
                }
                Ok(resp.value)
            },
            Err(e) => Err(e),
        }
    }
}

} // verus!
