//! The protocol 2 instructions in scope: Ping, Read and Write, with their
//! status counterparts.

use vstd::prelude::*;

use core::marker::PhantomData;

use crate::control_table::u16_of_le;
use crate::protocol2::p2_request;
use crate::protocol2::serialize_instruction;
use crate::protocol2::Instruction;
use crate::protocol2::PacketID;
use crate::protocol2::ReadRegister;
use crate::protocol2::Status;
use crate::protocol2::WriteRegister;

verus! {

/// Instruction value of Ping.
pub const PING_VALUE: u8 = 0x01;

/// Instruction value of Read.
pub const READ_VALUE: u8 = 0x02;

/// Instruction value of Write.
pub const WRITE_VALUE: u8 = 0x03;

/// A Ping request: no parameters.
#[derive(Debug, PartialEq, Eq, Clone, Copy, Structural)]
pub struct Ping {
    pub id: PacketID,
}

impl Ping {
    /// A ping addressed to `id`.
    pub fn new(id: PacketID) -> (r: Ping)
        ensures
            r.id == id,
    {
        Ping { id }
    }

    /// The 10 bytes of the request packet.
    pub fn serialize(&self) -> (r: Vec<u8>)
        ensures
            r@ == p2_request(self.id.spec_byte(), PING_VALUE, Seq::<u8>::empty()),
    {
        let r = serialize_instruction(self);
        proof {
            assert(self.spec_params() =~= Seq::<u8>::empty());
        }
        r
    }
}

impl Instruction for Ping {
    open spec fn spec_instruction_value() -> u8 {
        PING_VALUE
    }

    open spec fn spec_params(&self) -> Seq<u8> {
        Seq::<u8>::empty()
    }

    open spec fn spec_id(&self) -> PacketID {
        self.id
    }

    proof fn params_bound(&self) {
    }

    fn instruction_value() -> u8 {
        PING_VALUE
    }

    fn id(&self) -> PacketID {
        self.id
    }

    fn parameter_count(&self) -> u16 {
        0
    }

    fn parameter(&self, index: usize) -> u8 {
        // a ping has no parameters: no index satisfies the precondition
        proof {
            assert(false);
        }
        0
    }
}

/// The status a ping elicits: the servo's model number and firmware
/// version.
#[derive(Debug, PartialEq, Eq, Clone, Copy, Structural)]
pub struct Pong {
    pub model_number: u16,
    pub fw_version: u8,
}

impl Status for Pong {
    open spec fn spec_parameters() -> u16 {
        3
    }

    open spec fn spec_from_params(params: Seq<u8>) -> Pong {
        Pong { model_number: u16_of_le(params), fw_version: params[2] }
    }

    proof fn parameters_bound() {
    }

    fn parameters() -> u16 {
        3
    }

    fn from_params(params: &[u8]) -> Pong {
        Pong { model_number: crate::control_table::decode_u16(params), fw_version: params[2] }
    }
}

/// A Read request: fetch register `T` from a servo.
#[derive(Debug, PartialEq, Eq)]
pub struct Read<T: ReadRegister> {
    pub id: PacketID,
    pub register: PhantomData<T>,
}

impl<T: ReadRegister> Read<T> {
    /// A read of register `T` addressed to `id`.
    pub fn new(id: PacketID) -> (r: Read<T>)
        ensures
            r.id == id,
    {
        Read { id, register: PhantomData }
    }

    /// The request packet.
    pub fn serialize(&self) -> (r: Vec<u8>)
        ensures
            r@ == p2_request(self.id.spec_byte(), READ_VALUE, self.spec_params()),
    {
        serialize_instruction(self)
    }
}

impl<T: ReadRegister> Instruction for Read<T> {
    open spec fn spec_instruction_value() -> u8 {
        READ_VALUE
    }

    open spec fn spec_params(&self) -> Seq<u8> {
        seq![
            (T::spec_address() & 0xff) as u8,
            ((T::spec_address() >> 8) & 0xff) as u8,
            (T::spec_size() & 0xff) as u8,
            ((T::spec_size() >> 8) & 0xff) as u8,
        ]
    }

    open spec fn spec_id(&self) -> PacketID {
        self.id
    }

    proof fn params_bound(&self) {
    }

    fn instruction_value() -> u8 {
        READ_VALUE
    }

    fn id(&self) -> PacketID {
        self.id
    }

    fn parameter_count(&self) -> u16 {
        4
    }

    fn parameter(&self, index: usize) -> u8 {
        if index == 0 {
            (T::address() & 0xff) as u8
        } else if index == 1 {
            ((T::address() >> 8u16) & 0xff) as u8
        } else if index == 2 {
            (T::size() & 0xff) as u8
        } else {
            ((T::size() >> 8u16) & 0xff) as u8
        }
    }
}

/// The status a read elicits: the register value.
#[derive(Debug, PartialEq, Eq, Clone, Copy)]
pub struct ReadResponse<T: ReadRegister> {
    pub value: T,
}

impl<T: ReadRegister> Status for ReadResponse<T> {
    open spec fn spec_parameters() -> u16 {
        T::spec_size()
    }

    open spec fn spec_from_params(params: Seq<u8>) -> ReadResponse<T> {
        ReadResponse { value: T::spec_deserialize(params) }
    }

    proof fn parameters_bound() {
        T::size_bounds();
    }

    fn parameters() -> u16 {
        T::size()
    }

    fn from_params(params: &[u8]) -> ReadResponse<T> {
        ReadResponse { value: T::deserialize(params) }
    }
}

/// A Write request: store register `T` on a servo.
#[derive(Debug, PartialEq, Eq, Clone, Copy)]
pub struct Write<T: WriteRegister> {
    pub id: PacketID,
    pub data: T,
}

impl<T: WriteRegister> Write<T> {
    /// A write of `data` addressed to `id`.
    pub fn new(id: PacketID, data: T) -> (r: Write<T>)
        ensures
            r.id == id,
            r.data == data,
    {
        Write { id, data }
    }

    /// The request packet.
    pub fn serialize(&self) -> (r: Vec<u8>)
        ensures
            r@ == p2_request(self.id.spec_byte(), WRITE_VALUE, self.spec_params()),
    {
        serialize_instruction(self)
    }
}

impl<T: WriteRegister> Instruction for Write<T> {
    open spec fn spec_instruction_value() -> u8 {
        WRITE_VALUE
    }

    open spec fn spec_params(&self) -> Seq<u8> {
        seq![
            (T::spec_address() & 0xff) as u8,
            ((T::spec_address() >> 8) & 0xff) as u8,
        ] + self.data.spec_serialize().take(T::spec_size() as int)
    }

    open spec fn spec_id(&self) -> PacketID {
        self.id
    }

    proof fn params_bound(&self) {
        T::size_bounds();
        self.data.serialize_len();
    }

    fn instruction_value() -> u8 {
        WRITE_VALUE
    }

    fn id(&self) -> PacketID {
        self.id
    }

    fn parameter_count(&self) -> (r: u16)
        ensures
            r == self.spec_params().len(),
    {
        proof {
            T::size_bounds();
            self.data.serialize_len();
        }
        2 + T::size()
    }

    fn parameter(&self, index: usize) -> u8 {
        proof {
            T::size_bounds();
            self.data.serialize_len();
        }
        if index == 0 {
            (T::address() & 0xff) as u8
        } else if index == 1 {
            ((T::address() >> 8u16) & 0xff) as u8
        } else {
            let data = self.data.serialize();
            data[index - 2]
        }
    }
}

/// The status a write elicits: a bare acknowledgement.
#[derive(Debug, PartialEq, Eq, Clone, Copy, Structural)]
pub struct WriteResponse {}

impl Status for WriteResponse {
    open spec fn spec_parameters() -> u16 {
        0
    }

    open spec fn spec_from_params(params: Seq<u8>) -> WriteResponse {
        WriteResponse {  }
    }

    proof fn parameters_bound() {
    }

    fn parameters() -> u16 {
        0
    }

    fn from_params(params: &[u8]) -> WriteResponse {
        WriteResponse {  }
    }
}

} // verus!
