//! The Dynamixel Pro servo family: protocol 2 devices.

use vstd::prelude::*;

pub mod control_table;

use crate::protocol2;
use crate::protocol2::instruction;
use crate::BaudRate;
use crate::Interface;

verus! {

/// The model number the M42-10-S260-R reports in a pong.
pub const M4210S260R_MODEL_NUMBER: u16 = 0xA918;

/// A handle on one M42-10-S260-R servo: its identifier and the baud rate
/// it listens at.  It owns no transport; the interface is passed in per
/// operation, so one bus can serve many servos.
pub struct M4210S260R {
    pub id: protocol2::ServoID,
    pub baudrate: BaudRate,
}

impl M4210S260R {
    /// A handle, without pinging or any other check that the servo exists.
    pub fn new(id: protocol2::ServoID, baudrate: BaudRate) -> (r: M4210S260R)
        ensures
            r.id == id,
            r.baudrate == baudrate,
    {
        M4210S260R { id, baudrate }
    }

    /// Ping the servo: `Ok(info)` if it answered, with the baud rate this
    /// handle is keyed by; the model number, firmware version and
    /// identifier are those of a pong that parsed whole.
    pub fn ping<I: Interface>(&mut self, interface: &mut I) -> (r: Result<
        protocol2::ServoInfo,
        protocol2::Error,
    >)
        ensures
            r matches Ok(info) ==> info.baud_rate == old(self).baudrate,
            r matches Ok(info) ==> exists|bytes: Seq<u8>|
                #![trigger protocol2::deser_fold(protocol2::initial_view(), bytes)]
                {
                    let fr = protocol2::deser_fold(protocol2::initial_view(), bytes);
                    &&& fr.1 is None
                    &&& protocol2::view_finished(fr.0)
                    &&& Ok::<instruction::Pong, protocol2::Error>(
                        instruction::Pong {
                            model_number: info.model_number,
                            fw_version: info.fw_version,
                        },
                    ) == protocol2::spec_build::<instruction::Pong>(fr.0)
                },
    {
        match interface.set_baud_rate(self.baudrate) {
            Ok(()) => {},
            Err(e) => {
                return Err(protocol2::Error::Communication(e));
            },
        }
        interface.flush();
        let ping = instruction::Ping::new(protocol2::PacketID::from_servo(self.id));
        match protocol2::write_instruction(interface, ping) {
            Ok(()) => {},
            Err(e) => {
                return Err(protocol2::Error::Communication(e));
            },
        }
        match protocol2::read_status::<I, instruction::Pong>(interface) {
            Ok((pong, id)) => Ok(
                protocol2::ServoInfo {
                    baud_rate: self.baudrate,
                    model_number: pong.model_number,
                    fw_version: pong.fw_version,
                    id,
                },
            ),
            Err(e) => Err(e),
        }
    }

    /// Write `register` to the servo and wait for its acknowledgement:
    /// `Ok` only after a complete, CRC-clean status with no
    /// device-reported error came back.
    pub fn write<I: Interface, W: control_table::WriteRegister>(
        &mut self,
        interface: &mut I,
        register: W,
    ) -> (r: Result<(), protocol2::Error>)
        ensures
            r is Ok ==> exists|bytes: Seq<u8>|
                #![trigger protocol2::deser_fold(protocol2::initial_view(), bytes)]
                {
                    let fr = protocol2::deser_fold(protocol2::initial_view(), bytes);
                    &&& fr.1 is None
                    &&& protocol2::view_finished(fr.0)
                    &&& protocol2::spec_build::<instruction::WriteResponse>(fr.0) is Ok
                },
    {
        match interface.set_baud_rate(self.baudrate) {
            Ok(()) => {},
            Err(e) => {
                return Err(protocol2::Error::Communication(e));
            },
        }
        interface.flush();
        let write = instruction::Write::new(protocol2::PacketID::from_servo(self.id), register);
        match protocol2::write_instruction(interface, write) {
            Ok(()) => {},
            Err(e) => {
                return Err(protocol2::Error::Communication(e));
            },
        }
        match protocol2::read_status::<I, instruction::WriteResponse>(interface) {
            Ok(_) => Ok(()),
            Err(e) => Err(e),
        }
    }

    /// Read register `R` from the servo.  Any value handed back was
    /// decoded, by the register's own codec, from a status packet that
    /// parsed whole.
    pub fn read<I: Interface, R: control_table::ReadRegister>(&mut self, interface: &mut I) -> (r:
        Result<R, protocol2::Error>)
        ensures
            r matches Ok(v) ==> exists|bytes: Seq<u8>|
                #![trigger protocol2::deser_fold(protocol2::initial_view(), bytes)]
                {
                    let fr = protocol2::deser_fold(protocol2::initial_view(), bytes);
                    &&& fr.1 is None
                    &&& protocol2::view_finished(fr.0)
                    &&& Ok::<instruction::ReadResponse<R>, protocol2::Error>(
                        instruction::ReadResponse { value: v },
                    ) == protocol2::spec_build::<instruction::ReadResponse<R>>(fr.0)
                },
    {
        match interface.set_baud_rate(self.baudrate) {
            Ok(()) => {},
            Err(e) => {
                return Err(protocol2::Error::Communication(e));
            },
        }
        interface.flush();
        let read = instruction::Read::<R>::new(protocol2::PacketID::from_servo(self.id));
        match protocol2::write_instruction(interface, read) {
            Ok(()) => {},
            Err(e) => {
                return Err(protocol2::Error::Communication(e));
            },
        }
        match protocol2::read_status::<I, instruction::ReadResponse<R>>(interface) {
            Ok((response, _)) => Ok(response.value),
            Err(e) => Err(e),
        }
    }
}

} // verus!
