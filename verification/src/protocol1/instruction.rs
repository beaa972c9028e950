//! The protocol 1 instructions in scope: Ping and WriteData, with their
//! status counterparts.

use vstd::prelude::*;

use crate::protocol1::checksum::Checksum;
use crate::protocol1::p1_request;
use crate::protocol1::spec_parse_status;
use crate::protocol1::Error;
use crate::protocol1::PacketID;
use crate::protocol1::Status;
use crate::protocol1::WriteRegister;

verus! {

/// Instruction value of Ping.
pub const PING_VALUE: u8 = 0x01;

/// Instruction value of ReadData.
pub const READ_DATA_VALUE: u8 = 0x02;

/// Instruction value of WriteData.
pub const WRITE_DATA_VALUE: u8 = 0x03;

/// A Ping request: no parameters, LEN = 2.
pub struct Ping {
    pub id: PacketID,
}

impl Ping {
    /// A ping addressed to `id`.
    pub fn new(id: PacketID) -> (r: Ping)
        ensures
            r.id == id,
    {
        Ping { id }
    }

    /// The 6 bytes of the request packet.
    pub fn serialize(&self) -> (r: Vec<u8>)
        ensures
            r@ == p1_request(self.id.spec_byte(), PING_VALUE, Seq::<u8>::empty()),
            r@.len() == 6,
    {
        let idb = self.id.as_byte();
        let mut r: Vec<u8> = Vec::new();
        r.push(0xff);
        r.push(0xff);
        r.push(idb);
        r.push(2);
        r.push(PING_VALUE);
        let covered = vstd::slice::slice_subrange(r.as_slice(), 2, 5);
        let ck = Checksum::calc(covered);
        proof {
            assert(covered@ =~= seq![idb, 2u8, PING_VALUE] + Seq::<u8>::empty());
        }
        r.push(ck.value());
        proof {
            assert(r@ =~= p1_request(self.id.spec_byte(), PING_VALUE, Seq::<u8>::empty()));
        }
        r
    }
}

/// The status a unicast ping elicits.  It carries no parameters; the
/// responding servo's identity is reported alongside by the parser.
#[derive(Debug, PartialEq, Eq, Clone, Copy, Structural)]
pub struct Pong {}

impl Status for Pong {
    open spec fn spec_length() -> u8 {
        2
    }

    open spec fn spec_from_params(params: Seq<u8>) -> Pong {
        Pong {  }
    }

    fn length() -> u8 {
        2
    }

    fn from_params(params: &[u8]) -> Pong {
        Pong {  }
    }
}

impl Pong {
    /// Parse a complete status buffer as a pong.
    pub fn deserialize(data: &[u8]) -> (r: Result<Pong, Error>)
        ensures
            match spec_parse_status(data@, 2) {
                Ok(_) => r == Ok::<Pong, Error>(Pong {  }),
                Err(e) => r == Err::<Pong, Error>(e),
            },
    {
        match crate::protocol1::parse_status::<Pong>(data) {
            Ok((pong, _)) => Ok(pong),
            Err(e) => Err(e),
        }
    }
}

/// A WriteData request: store a register value on the servo.
pub struct WriteData<T: WriteRegister> {
    pub id: PacketID,
    pub data: T,
}

impl<T: WriteRegister> WriteData<T> {
    /// A write of `data` addressed to `id`.
    pub fn new(id: PacketID, data: T) -> (r: WriteData<T>)
        ensures
            r.id == id,
            r.data == data,
    {
        WriteData { id, data }
    }

    /// The parameter bytes: the register address, then SIZE data bytes.
    pub open spec fn spec_params(&self) -> Seq<u8> {
        seq![T::spec_address()] + self.data.spec_serialize().take(T::spec_size() as int)
    }

    /// The request packet, padded with zeros to its maximal length of 11
    /// bytes (the packet itself occupies the first `7 + SIZE`).
    #[verifier::loop_isolation(false)]
    pub fn serialize(&self) -> (r: Vec<u8>)
        ensures
            r@.len() == 11,
            r@.take(7 + T::spec_size() as int) == p1_request(
                self.id.spec_byte(),
                WRITE_DATA_VALUE,
                self.spec_params(),
            ),
            r@.skip(7 + T::spec_size() as int) =~= Seq::<u8>::new(
                (4 - T::spec_size()) as nat,
                |i: int| 0u8,
            ),
    {
        proof {
            T::size_bounds();
            self.data.serialize_len();
        }
        let size = T::size();
        let idb = self.id.as_byte();
        let mut r: Vec<u8> = Vec::new();
        r.push(0xff);
        r.push(0xff);
        r.push(idb);
        r.push(size + 3);
        r.push(WRITE_DATA_VALUE);
        r.push(T::address());
        let data = self.data.serialize();
        let mut i: usize = 0;
        while i < size as usize
            invariant
                i <= T::spec_size(),
                T::spec_size() <= 4,
                data@ == self.data.spec_serialize(),
                data@.len() == 4,
                r@ =~= seq![
                    0xffu8,
                    0xffu8,
                    idb,
                    (T::spec_size() + 3) as u8,
                    WRITE_DATA_VALUE,
                    T::spec_address(),
                ] + data@.take(i as int),
            decreases size as int - i,
        {
            let b = data[i];
            r.push(b);
            proof {
                assert(data@.take(i as int + 1) =~= data@.take(i as int).push(b));
            }
            i = i + 1;
        }
        let covered = vstd::slice::slice_subrange(r.as_slice(), 2, 6 + size as usize);
        let ck = Checksum::calc(covered);
        proof {
            let params = self.spec_params();
            let len = ((params.len() + 2) % 256) as u8;
            assert(len == T::spec_size() + 3);
            assert(covered@ =~= seq![idb, len, WRITE_DATA_VALUE] + params);
        }
        r.push(ck.value());
        let ghost packet = r@;
        proof {
            assert(packet =~= p1_request(
                self.id.spec_byte(),
                WRITE_DATA_VALUE,
                self.spec_params(),
            ));
        }
        let mut j: usize = 7 + size as usize;
        while j < 11
            invariant
                7 + T::spec_size() <= j <= 11,
                r@.len() == j,
                packet.len() == 7 + T::spec_size(),
                r@.take(packet.len() as int) == packet,
                forall|k: int| packet.len() <= k < j ==> r@[k] == 0u8,
            decreases 11 - j,
        {
            let ghost prev = r@;
            r.push(0);
            proof {
                assert(r@.take(packet.len() as int) =~= prev.take(packet.len() as int));
            }
            j = j + 1;
        }
        proof {
            assert(r@.take(7 + T::spec_size() as int) == packet);
            assert(r@.skip(7 + T::spec_size() as int) =~= Seq::<u8>::new(
                (4 - T::spec_size()) as nat,
                |i: int| 0u8,
            ));
        }
        r
    }
}

/// A ReadData request: fetch register `T` from a servo.  Parameters are
/// the register's address and its size.
pub struct ReadData<T: crate::protocol1::ReadRegister> {
    pub id: PacketID,
    pub register: core::marker::PhantomData<T>,
}

impl<T: crate::protocol1::ReadRegister> ReadData<T> {
    /// A read of register `T` addressed to `id`.
    pub fn new(id: PacketID) -> (r: ReadData<T>)
        ensures
            r.id == id,
    {
        ReadData { id, register: core::marker::PhantomData }
    }

    /// The parameter bytes: the register's address, then its size.
    pub open spec fn spec_params(&self) -> Seq<u8> {
        seq![T::spec_address(), T::spec_size()]
    }

    /// The 8 bytes of the request packet.
    pub fn serialize(&self) -> (r: Vec<u8>)
        ensures
            r@ == p1_request(self.id.spec_byte(), READ_DATA_VALUE, self.spec_params()),
            r@.len() == 8,
    {
        let idb = self.id.as_byte();
        let mut r: Vec<u8> = Vec::new();
        r.push(0xff);
        r.push(0xff);
        r.push(idb);
        r.push(4);
        r.push(READ_DATA_VALUE);
        r.push(T::address());
        r.push(T::size());
        let covered = vstd::slice::slice_subrange(r.as_slice(), 2, 7);
        let ck = Checksum::calc(covered);
        proof {
            assert(covered@ =~= seq![idb, 4u8, READ_DATA_VALUE] + self.spec_params());
        }
        r.push(ck.value());
        proof {
            assert(r@ =~= p1_request(self.id.spec_byte(), READ_DATA_VALUE, self.spec_params()));
        }
        r
    }
}

/// The status a read elicits: the register value.
pub struct ReadDataResponse<T: crate::protocol1::ReadRegister> {
    pub value: T,
}

impl<T: crate::protocol1::ReadRegister> Status for ReadDataResponse<T> {
    open spec fn spec_length() -> u8 {
        (T::spec_size() + 2) as u8
    }

    open spec fn spec_from_params(params: Seq<u8>) -> ReadDataResponse<T> {
        ReadDataResponse { value: T::spec_deserialize(params) }
    }

    fn length() -> (r: u8)
        ensures
            r == Self::spec_length(),
            2 <= r,
    {
        proof {
            T::size_bounds();
        }
        T::size() + 2
    }

    fn from_params(params: &[u8]) -> ReadDataResponse<T> {
        proof {
            T::size_bounds();
        }
        ReadDataResponse { value: T::deserialize(params) }
    }
}

/// The status a unicast write elicits: no parameters.
#[derive(Debug, PartialEq, Eq, Clone, Copy, Structural)]
pub struct WriteDataResponse {}

impl Status for WriteDataResponse {
    open spec fn spec_length() -> u8 {
        2
    }

    open spec fn spec_from_params(params: Seq<u8>) -> WriteDataResponse {
        WriteDataResponse {  }
    }

    fn length() -> u8 {
        2
    }

    fn from_params(params: &[u8]) -> WriteDataResponse {
        WriteDataResponse {  }
    }
}

impl WriteDataResponse {
    /// Parse a complete status buffer as a write acknowledgement.
    pub fn deserialize(data: &[u8]) -> (r: Result<WriteDataResponse, Error>)
        ensures
            match spec_parse_status(data@, 2) {
                Ok(_) => r == Ok::<WriteDataResponse, Error>(WriteDataResponse {  }),
                Err(e) => r == Err::<WriteDataResponse, Error>(e),
            },
    {
        match crate::protocol1::parse_status::<WriteDataResponse>(data) {
            Ok((resp, _)) => Ok(resp),
            Err(e) => Err(e),
        }
    }
}

} // verus!
