//! The MX-28 control-table fields in scope, protocol 1: torque enable,
//! LED, goal position and present position.

use vstd::prelude::*;

use crate::control_table::bool_le;
use crate::control_table::bool_of_le;
use crate::control_table::decode_bool;
use crate::control_table::decode_u16;
use crate::control_table::encode_bool;
use crate::control_table::encode_u16;
use crate::control_table::lemma_bool_round_trip;
use crate::control_table::lemma_u16_round_trip;
use crate::control_table::u16_le;
use crate::control_table::u16_of_le;

verus! {

/// A register of this servo model.
pub trait Register: crate::protocol1::Register {

}

/// A readable register of this servo model.
pub trait ReadRegister: crate::protocol1::ReadRegister + Register {

}

/// A writable register of this servo model.
pub trait WriteRegister: crate::protocol1::WriteRegister + Register {

}

/// Torque enable flag, 1 byte at address 24.
#[derive(Debug, PartialEq, Eq, Clone, Copy, Structural)]
pub struct TorqueEnable(pub bool);

impl TorqueEnable {
    /// A torque-enable value.
    pub fn new(v: bool) -> (r: TorqueEnable)
        ensures
            r.0 == v,
    {
        TorqueEnable(v)
    }
}

impl crate::protocol1::Register for TorqueEnable {
    open spec fn spec_size() -> u8 {
        1
    }

    open spec fn spec_address() -> u8 {
        24
    }

    proof fn size_bounds() {
    }

    fn size() -> u8 {
        1
    }

    fn address() -> u8 {
        24
    }
}

impl crate::protocol1::ReadRegister for TorqueEnable {
    open spec fn spec_deserialize(data: Seq<u8>) -> TorqueEnable {
        TorqueEnable(bool_of_le(data))
    }

    fn deserialize(data: &[u8]) -> TorqueEnable {
        TorqueEnable(decode_bool(data))
    }
}

impl crate::protocol1::WriteRegister for TorqueEnable {
    open spec fn spec_serialize(self) -> Seq<u8> {
        bool_le(self.0)
    }

    proof fn serialize_len(self) {
    }

    fn serialize(&self) -> Vec<u8> {
        encode_bool(self.0)
    }
}

impl Register for TorqueEnable {

}

impl ReadRegister for TorqueEnable {

}

impl crate::protocol1::ReadWriteRegister for TorqueEnable {
    proof fn round_trip(self) {
        lemma_bool_round_trip(self.0);
    }
}

impl WriteRegister for TorqueEnable {

}

/// LED flag, 1 byte at address 25.
#[derive(Debug, PartialEq, Eq, Clone, Copy, Structural)]
pub struct Led(pub bool);

impl Led {
    /// An LED value.
    pub fn new(v: bool) -> (r: Led)
        ensures
            r.0 == v,
    {
        Led(v)
    }
}

impl crate::protocol1::Register for Led {
    open spec fn spec_size() -> u8 {
        1
    }

    open spec fn spec_address() -> u8 {
        25
    }

    proof fn size_bounds() {
    }

    fn size() -> u8 {
        1
    }

    fn address() -> u8 {
        25
    }
}

impl crate::protocol1::ReadRegister for Led {
    open spec fn spec_deserialize(data: Seq<u8>) -> Led {
        Led(bool_of_le(data))
    }

    fn deserialize(data: &[u8]) -> Led {
        Led(decode_bool(data))
    }
}

impl crate::protocol1::WriteRegister for Led {
    open spec fn spec_serialize(self) -> Seq<u8> {
        bool_le(self.0)
    }

    proof fn serialize_len(self) {
    }

    fn serialize(&self) -> Vec<u8> {
        encode_bool(self.0)
    }
}

impl Register for Led {

}

impl ReadRegister for Led {

}

impl crate::protocol1::ReadWriteRegister for Led {
    proof fn round_trip(self) {
        lemma_bool_round_trip(self.0);
    }
}

impl WriteRegister for Led {

}

/// Goal position, 2 bytes at address 30, unsigned on the wire.
#[derive(Debug, PartialEq, Eq, Clone, Copy, Structural)]
pub struct GoalPosition(pub u16);

impl GoalPosition {
    /// A goal position value.
    pub fn new(v: u16) -> (r: GoalPosition)
        ensures
            r.0 == v,
    {
        GoalPosition(v)
    }
}

impl crate::protocol1::Register for GoalPosition {
    open spec fn spec_size() -> u8 {
        2
    }

    open spec fn spec_address() -> u8 {
        30
    }

    proof fn size_bounds() {
    }

    fn size() -> u8 {
        2
    }

    fn address() -> u8 {
        30
    }
}

impl crate::protocol1::ReadRegister for GoalPosition {
    open spec fn spec_deserialize(data: Seq<u8>) -> GoalPosition {
        GoalPosition(u16_of_le(data))
    }

    fn deserialize(data: &[u8]) -> GoalPosition {
        GoalPosition(decode_u16(data))
    }
}

impl crate::protocol1::WriteRegister for GoalPosition {
    open spec fn spec_serialize(self) -> Seq<u8> {
        u16_le(self.0)
    }

    proof fn serialize_len(self) {
    }

    fn serialize(&self) -> Vec<u8> {
        encode_u16(self.0)
    }
}

impl Register for GoalPosition {

}

impl ReadRegister for GoalPosition {

}

impl crate::protocol1::ReadWriteRegister for GoalPosition {
    proof fn round_trip(self) {
        lemma_u16_round_trip(self.0);
    }
}

impl WriteRegister for GoalPosition {

}

/// Present position, 2 bytes at address 36, read-only.
#[derive(Debug, PartialEq, Eq, Clone, Copy, Structural)]
pub struct PresentPosition(pub u16);

impl PresentPosition {
    /// A present-position value.
    pub fn new(v: u16) -> (r: PresentPosition)
        ensures
            r.0 == v,
    {
        PresentPosition(v)
    }
}

impl crate::protocol1::Register for PresentPosition {
    open spec fn spec_size() -> u8 {
        2
    }

    open spec fn spec_address() -> u8 {
        36
    }

    proof fn size_bounds() {
    }

    fn size() -> u8 {
        2
    }

    fn address() -> u8 {
        36
    }
}

impl crate::protocol1::ReadRegister for PresentPosition {
    open spec fn spec_deserialize(data: Seq<u8>) -> PresentPosition {
        PresentPosition(u16_of_le(data))
    }

    fn deserialize(data: &[u8]) -> PresentPosition {
        PresentPosition(decode_u16(data))
    }
}

impl Register for PresentPosition {

}

impl ReadRegister for PresentPosition {

}

} // verus!
