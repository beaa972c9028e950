//! The Dynamixel Pro control-table fields in scope, protocol 2.

use vstd::prelude::*;

use crate::control_table::bool_le;
use crate::control_table::bool_of_le;
use crate::control_table::decode_bool;
use crate::control_table::decode_i16;
use crate::control_table::decode_i32;
use crate::control_table::decode_u8;
use crate::control_table::encode_bool;
use crate::control_table::encode_i16;
use crate::control_table::encode_i32;
use crate::control_table::encode_u8;
use crate::control_table::i16_le;
use crate::control_table::i16_of_le;
use crate::control_table::i32_le;
use crate::control_table::i32_of_le;
use crate::control_table::lemma_bool_round_trip;
use crate::control_table::lemma_i16_round_trip;
use crate::control_table::lemma_i32_round_trip;
use crate::control_table::lemma_u8_round_trip;
use crate::control_table::u8_le;
use crate::control_table::u8_of_le;

verus! {

/// A register of this servo family.
pub trait Register: crate::protocol2::Register {

}

/// A readable register of this servo family.
pub trait ReadRegister: crate::protocol2::ReadRegister + Register {

}

/// A writable register of this servo family.
pub trait WriteRegister: crate::protocol2::WriteRegister + Register {

}

/// Operating mode selector, 1 byte at address 11.
#[derive(Debug, PartialEq, Eq, Clone, Copy, Structural)]
pub struct OperatingMode(pub u8);

impl OperatingMode {
    /// A value for this register.
    pub fn new(v: u8) -> (r: OperatingMode)
        ensures
            r.0 == v,
    {
        OperatingMode(v)
    }
}

impl crate::protocol2::Register for OperatingMode {
    open spec fn spec_size() -> u16 {
        1
    }

    open spec fn spec_address() -> u16 {
        11
    }

    proof fn size_bounds() {
    }

    fn size() -> u16 {
        1
    }

    fn address() -> u16 {
        11
    }
}

impl crate::protocol2::ReadRegister for OperatingMode {
    open spec fn spec_deserialize(data: Seq<u8>) -> OperatingMode {
        OperatingMode(u8_of_le(data))
    }

    fn deserialize(data: &[u8]) -> OperatingMode {
        OperatingMode(decode_u8(data))
    }
}

impl crate::protocol2::WriteRegister for OperatingMode {
    open spec fn spec_serialize(self) -> Seq<u8> {
        u8_le(self.0)
    }

    proof fn serialize_len(self) {
    }

    fn serialize(&self) -> Vec<u8> {
        encode_u8(self.0)
    }
}

impl Register for OperatingMode {

}

impl ReadRegister for OperatingMode {

}

impl crate::protocol2::ReadWriteRegister for OperatingMode {
    proof fn round_trip(self) {
        lemma_u8_round_trip(self.0);
    }
}

impl WriteRegister for OperatingMode {

}

/// Torque enable flag, 1 byte at address 562.
#[derive(Debug, PartialEq, Eq, Clone, Copy, Structural)]
pub struct TorqueEnable(pub bool);

impl TorqueEnable {
    /// A value for this register.
    pub fn new(v: bool) -> (r: TorqueEnable)
        ensures
            r.0 == v,
    {
        TorqueEnable(v)
    }
}

impl crate::protocol2::Register for TorqueEnable {
    open spec fn spec_size() -> u16 {
        1
    }

    open spec fn spec_address() -> u16 {
        562
    }

    proof fn size_bounds() {
    }

    fn size() -> u16 {
        1
    }

    fn address() -> u16 {
        562
    }
}

impl crate::protocol2::ReadRegister for TorqueEnable {
    open spec fn spec_deserialize(data: Seq<u8>) -> TorqueEnable {
        TorqueEnable(bool_of_le(data))
    }

    fn deserialize(data: &[u8]) -> TorqueEnable {
        TorqueEnable(decode_bool(data))
    }
}

impl crate::protocol2::WriteRegister for TorqueEnable {
    open spec fn spec_serialize(self) -> Seq<u8> {
        bool_le(self.0)
    }

    proof fn serialize_len(self) {
    }

    fn serialize(&self) -> Vec<u8> {
        encode_bool(self.0)
    }
}

impl Register for TorqueEnable {

}

impl ReadRegister for TorqueEnable {

}

impl crate::protocol2::ReadWriteRegister for TorqueEnable {
    proof fn round_trip(self) {
        lemma_bool_round_trip(self.0);
    }
}

impl WriteRegister for TorqueEnable {

}

/// Red LED intensity, 1 byte at address 563.
#[derive(Debug, PartialEq, Eq, Clone, Copy, Structural)]
pub struct LedRed(pub u8);

impl LedRed {
    /// A value for this register.
    pub fn new(v: u8) -> (r: LedRed)
        ensures
            r.0 == v,
    {
        LedRed(v)
    }
}

impl crate::protocol2::Register for LedRed {
    open spec fn spec_size() -> u16 {
        1
    }

    open spec fn spec_address() -> u16 {
        563
    }

    proof fn size_bounds() {
    }

    fn size() -> u16 {
        1
    }

    fn address() -> u16 {
        563
    }
}

impl crate::protocol2::ReadRegister for LedRed {
    open spec fn spec_deserialize(data: Seq<u8>) -> LedRed {
        LedRed(u8_of_le(data))
    }

    fn deserialize(data: &[u8]) -> LedRed {
        LedRed(decode_u8(data))
    }
}

impl crate::protocol2::WriteRegister for LedRed {
    open spec fn spec_serialize(self) -> Seq<u8> {
        u8_le(self.0)
    }

    proof fn serialize_len(self) {
    }

    fn serialize(&self) -> Vec<u8> {
        encode_u8(self.0)
    }
}

impl Register for LedRed {

}

impl ReadRegister for LedRed {

}

impl crate::protocol2::ReadWriteRegister for LedRed {
    proof fn round_trip(self) {
        lemma_u8_round_trip(self.0);
    }
}

impl WriteRegister for LedRed {

}

/// Green LED intensity, 1 byte at address 564.
#[derive(Debug, PartialEq, Eq, Clone, Copy, Structural)]
pub struct LedGreen(pub u8);

impl LedGreen {
    /// A value for this register.
    pub fn new(v: u8) -> (r: LedGreen)
        ensures
            r.0 == v,
    {
        LedGreen(v)
    }
}

impl crate::protocol2::Register for LedGreen {
    open spec fn spec_size() -> u16 {
        1
    }

    open spec fn spec_address() -> u16 {
        564
    }

    proof fn size_bounds() {
    }

    fn size() -> u16 {
        1
    }

    fn address() -> u16 {
        564
    }
}

impl crate::protocol2::ReadRegister for LedGreen {
    open spec fn spec_deserialize(data: Seq<u8>) -> LedGreen {
        LedGreen(u8_of_le(data))
    }

    fn deserialize(data: &[u8]) -> LedGreen {
        LedGreen(decode_u8(data))
    }
}

impl crate::protocol2::WriteRegister for LedGreen {
    open spec fn spec_serialize(self) -> Seq<u8> {
        u8_le(self.0)
    }

    proof fn serialize_len(self) {
    }

    fn serialize(&self) -> Vec<u8> {
        encode_u8(self.0)
    }
}

impl Register for LedGreen {

}

impl ReadRegister for LedGreen {

}

impl crate::protocol2::ReadWriteRegister for LedGreen {
    proof fn round_trip(self) {
        lemma_u8_round_trip(self.0);
    }
}

impl WriteRegister for LedGreen {

}

/// Blue LED intensity, 1 byte at address 565.
#[derive(Debug, PartialEq, Eq, Clone, Copy, Structural)]
pub struct LedBlue(pub u8);

impl LedBlue {
    /// A value for this register.
    pub fn new(v: u8) -> (r: LedBlue)
        ensures
            r.0 == v,
    {
        LedBlue(v)
    }
}

impl crate::protocol2::Register for LedBlue {
    open spec fn spec_size() -> u16 {
        1
    }

    open spec fn spec_address() -> u16 {
        565
    }

    proof fn size_bounds() {
    }

    fn size() -> u16 {
        1
    }

    fn address() -> u16 {
        565
    }
}

impl crate::protocol2::ReadRegister for LedBlue {
    open spec fn spec_deserialize(data: Seq<u8>) -> LedBlue {
        LedBlue(u8_of_le(data))
    }

    fn deserialize(data: &[u8]) -> LedBlue {
        LedBlue(decode_u8(data))
    }
}

impl crate::protocol2::WriteRegister for LedBlue {
    open spec fn spec_serialize(self) -> Seq<u8> {
        u8_le(self.0)
    }

    proof fn serialize_len(self) {
    }

    fn serialize(&self) -> Vec<u8> {
        encode_u8(self.0)
    }
}

impl Register for LedBlue {

}

impl ReadRegister for LedBlue {

}

impl crate::protocol2::ReadWriteRegister for LedBlue {
    proof fn round_trip(self) {
        lemma_u8_round_trip(self.0);
    }
}

impl WriteRegister for LedBlue {

}

/// Goal position, 4 bytes at address 596.
#[derive(Debug, PartialEq, Eq, Clone, Copy, Structural)]
pub struct GoalPosition(pub i32);

impl GoalPosition {
    /// A value for this register.
    pub fn new(v: i32) -> (r: GoalPosition)
        ensures
            r.0 == v,
    {
        GoalPosition(v)
    }
}

impl crate::protocol2::Register for GoalPosition {
    open spec fn spec_size() -> u16 {
        4
    }

    open spec fn spec_address() -> u16 {
        596
    }

    proof fn size_bounds() {
    }

    fn size() -> u16 {
        4
    }

    fn address() -> u16 {
        596
    }
}

impl crate::protocol2::ReadRegister for GoalPosition {
    open spec fn spec_deserialize(data: Seq<u8>) -> GoalPosition {
        GoalPosition(i32_of_le(data))
    }

    fn deserialize(data: &[u8]) -> GoalPosition {
        GoalPosition(decode_i32(data))
    }
}

impl crate::protocol2::WriteRegister for GoalPosition {
    open spec fn spec_serialize(self) -> Seq<u8> {
        i32_le(self.0)
    }

    proof fn serialize_len(self) {
    }

    fn serialize(&self) -> Vec<u8> {
        encode_i32(self.0)
    }
}

impl Register for GoalPosition {

}

impl ReadRegister for GoalPosition {

}

impl crate::protocol2::ReadWriteRegister for GoalPosition {
    proof fn round_trip(self) {
        lemma_i32_round_trip(self.0);
    }
}

impl WriteRegister for GoalPosition {

}

/// Goal torque, 2 bytes at address 604.
#[derive(Debug, PartialEq, Eq, Clone, Copy, Structural)]
pub struct GoalTorque(pub i16);

impl GoalTorque {
    /// A value for this register.
    pub fn new(v: i16) -> (r: GoalTorque)
        ensures
            r.0 == v,
    {
        GoalTorque(v)
    }
}

impl crate::protocol2::Register for GoalTorque {
    open spec fn spec_size() -> u16 {
        2
    }

    open spec fn spec_address() -> u16 {
        604
    }

    proof fn size_bounds() {
    }

    fn size() -> u16 {
        2
    }

    fn address() -> u16 {
        604
    }
}

impl crate::protocol2::ReadRegister for GoalTorque {
    open spec fn spec_deserialize(data: Seq<u8>) -> GoalTorque {
        GoalTorque(i16_of_le(data))
    }

    fn deserialize(data: &[u8]) -> GoalTorque {
        GoalTorque(decode_i16(data))
    }
}

impl crate::protocol2::WriteRegister for GoalTorque {
    open spec fn spec_serialize(self) -> Seq<u8> {
        i16_le(self.0)
    }

    proof fn serialize_len(self) {
    }

    fn serialize(&self) -> Vec<u8> {
        encode_i16(self.0)
    }
}

impl Register for GoalTorque {

}

impl ReadRegister for GoalTorque {

}

impl crate::protocol2::ReadWriteRegister for GoalTorque {
    proof fn round_trip(self) {
        lemma_i16_round_trip(self.0);
    }
}

impl WriteRegister for GoalTorque {

}

/// Present position, 4 bytes at address 611, read-only.
#[derive(Debug, PartialEq, Eq, Clone, Copy, Structural)]
pub struct PresentPosition(pub i32);

impl PresentPosition {
    /// A value for this register.
    pub fn new(v: i32) -> (r: PresentPosition)
        ensures
            r.0 == v,
    {
        PresentPosition(v)
    }
}

impl crate::protocol2::Register for PresentPosition {
    open spec fn spec_size() -> u16 {
        4
    }

    open spec fn spec_address() -> u16 {
        611
    }

    proof fn size_bounds() {
    }

    fn size() -> u16 {
        4
    }

    fn address() -> u16 {
        611
    }
}

impl crate::protocol2::ReadRegister for PresentPosition {
    open spec fn spec_deserialize(data: Seq<u8>) -> PresentPosition {
        PresentPosition(i32_of_le(data))
    }

    fn deserialize(data: &[u8]) -> PresentPosition {
        PresentPosition(decode_i32(data))
    }
}

impl Register for PresentPosition {

}

impl ReadRegister for PresentPosition {

}

/// Present velocity, 4 bytes at address 615, read-only.
#[derive(Debug, PartialEq, Eq, Clone, Copy, Structural)]
pub struct PresentVelocity(pub i32);

impl PresentVelocity {
    /// A value for this register.
    pub fn new(v: i32) -> (r: PresentVelocity)
        ensures
            r.0 == v,
    {
        PresentVelocity(v)
    }
}

impl crate::protocol2::Register for PresentVelocity {
    open spec fn spec_size() -> u16 {
        4
    }

    open spec fn spec_address() -> u16 {
        615
    }

    proof fn size_bounds() {
    }

    fn size() -> u16 {
        4
    }

    fn address() -> u16 {
        615
    }
}

impl crate::protocol2::ReadRegister for PresentVelocity {
    open spec fn spec_deserialize(data: Seq<u8>) -> PresentVelocity {
        PresentVelocity(i32_of_le(data))
    }

    fn deserialize(data: &[u8]) -> PresentVelocity {
        PresentVelocity(decode_i32(data))
    }
}

impl Register for PresentVelocity {

}

impl ReadRegister for PresentVelocity {

}

/// Present current, 2 bytes at address 621, read-only.
#[derive(Debug, PartialEq, Eq, Clone, Copy, Structural)]
pub struct PresentCurrent(pub i16);

impl PresentCurrent {
    /// A value for this register.
    pub fn new(v: i16) -> (r: PresentCurrent)
        ensures
            r.0 == v,
    {
        PresentCurrent(v)
    }
}

impl crate::protocol2::Register for PresentCurrent {
    open spec fn spec_size() -> u16 {
        2
    }

    open spec fn spec_address() -> u16 {
        621
    }

    proof fn size_bounds() {
    }

    fn size() -> u16 {
        2
    }

    fn address() -> u16 {
        621
    }
}

impl crate::protocol2::ReadRegister for PresentCurrent {
    open spec fn spec_deserialize(data: Seq<u8>) -> PresentCurrent {
        PresentCurrent(i16_of_le(data))
    }

    fn deserialize(data: &[u8]) -> PresentCurrent {
        PresentCurrent(decode_i16(data))
    }
}

impl Register for PresentCurrent {

}

impl ReadRegister for PresentCurrent {

}

} // verus!
