//! Protocol 1: the older Dynamixel framing.
//!
//! Requests are `FF FF | ID | LEN | INSTR | params | CKSUM` where
//! `LEN = N_params + 2` and the checksum is the complement of the 8-bit sum
//! of the bytes from ID through the last parameter.  Responses carry a
//! device-reported error bitfield in place of the instruction byte.

use vstd::prelude::*;

pub mod checksum;
pub mod instruction;

verus! {

/// A servo identifier; protocol 1 allows 0 through 253.
#[derive(Debug, PartialEq, Eq, Copy, Clone, Structural)]
pub struct ServoID(pub u8);

impl ServoID {
    /// Wrap an identifier known to be in range.
    pub fn new(id: u8) -> (r: ServoID)
        requires
            id <= 253,
        ensures
            r.0 == id,
    {
        ServoID(id)
    }

    /// Wrap an identifier, rejecting out-of-range values.
    pub fn try_new(id: u8) -> (r: Option<ServoID>)
        ensures
            r matches Some(s) ==> s.0 == id && id <= 253,
            r is None <==> id > 253,
    {
        if id <= 253 {
            Some(ServoID(id))
        } else {
            None
        }
    }

    /// The identifier byte.
    pub fn value(&self) -> (r: u8)
        ensures
            r == self.0,
    {
        self.0
    }
}

/// The recipient of a request: one servo or every servo on the bus.
#[derive(Debug, PartialEq, Eq, Copy, Clone, Structural)]
pub enum PacketID {
    Unicast(ServoID),
    Broadcast,
}

impl PacketID {
    /// The byte that goes on the wire: the unicast ID verbatim, 254 for
    /// broadcast.
    pub open spec fn spec_byte(self) -> u8 {
        match self {
            PacketID::Unicast(id) => id.0,
            PacketID::Broadcast => 254,
        }
    }

    /// Address a single servo.
    pub fn unicast(id: u8) -> (r: PacketID)
        requires
            id <= 253,
        ensures
            r == PacketID::Unicast(ServoID(id)),
    {
        PacketID::Unicast(ServoID::new(id))
    }

    /// Address every servo on the bus.  Broadcast requests yield no
    /// response.
    pub fn broadcast() -> (r: PacketID)
        ensures
            r == PacketID::Broadcast,
    {
        PacketID::Broadcast
    }

    /// Convert a unicast servo identifier.
    pub fn from_servo(id: ServoID) -> (r: PacketID)
        ensures
            r == PacketID::Unicast(id),
    {
        PacketID::Unicast(id)
    }

    /// The byte that goes on the wire.
    pub fn as_byte(&self) -> (r: u8)
        ensures
            r == self.spec_byte(),
    {
        match self {
            PacketID::Unicast(id) => id.0,
            PacketID::Broadcast => 254,
        }
    }
}

/// Any protocol 1 error: transport, framing, or device-reported.
#[derive(Debug, PartialEq, Eq, Clone, Copy, Structural)]
pub enum Error {
    Communication(crate::CommunicationError),
    Format(FormatError),
    Processing(ProcessingError),
}

/// A malformed or corrupt protocol 1 frame.
#[derive(Debug, PartialEq, Eq, Clone, Copy, Structural)]
pub enum FormatError {
    ID,
    Header,
    Checksum,
    Length,
    InvalidError,
}

/// The device-reported error byte of a protocol 1 status packet: a
/// bitfield, zero when the request was processed cleanly.  Bit 7 is
/// reserved and never set in a well-formed status.
#[derive(Debug, PartialEq, Eq, Clone, Copy, Structural)]
pub struct ProcessingError(pub u8);

/// True iff bit `bit` of `v` is set.
pub open spec fn spec_bit(v: u8, bit: u8) -> bool {
    v & (1u8 << bit) != 0
}

impl ProcessingError {
    /// Decode the status error byte: 0 means success, bit 7 set is a
    /// format error, anything else is a device-reported processing error.
    pub fn decode(v: u8) -> (r: Result<Option<ProcessingError>, ()>)
        ensures
            v == 0 ==> r == Result::<Option<ProcessingError>, ()>::Ok(None),
            v != 0 && spec_bit(v, 7) ==> r == Result::<Option<ProcessingError>, ()>::Err(()),
            v != 0 && !spec_bit(v, 7) ==> r == Result::<Option<ProcessingError>, ()>::Ok(
                Some(ProcessingError(v)),
            ),
    {
        if v == 0 {
            Ok(None)
        } else if v & 0x80 != 0 {
            proof {
                assert(v & 0x80 != 0 ==> v & (1u8 << 7u8) != 0) by (bit_vector);
            }
            Err(())
        } else {
            proof {
                assert(v & 0x80 == 0 ==> v & (1u8 << 7u8) == 0) by (bit_vector);
            }
            Ok(Some(ProcessingError(v)))
        }
    }

    /// Bit 6: the instruction was not understood.
    pub fn instruction_error(&self) -> (r: bool)
        ensures
            r == spec_bit(self.0, 6),
    {
        let v = self.0;
        proof {
            assert((v & 0x40 != 0) == (v & (1u8 << 6u8) != 0)) by (bit_vector);
        }
        v & 0x40 != 0
    }

    /// Bit 5: the servo is overloaded.
    pub fn overload_error(&self) -> (r: bool)
        ensures
            r == spec_bit(self.0, 5),
    {
        let v = self.0;
        proof {
            assert((v & 0x20 != 0) == (v & (1u8 << 5u8) != 0)) by (bit_vector);
        }
        v & 0x20 != 0
    }

    /// Bit 4: the request's checksum did not match.
    pub fn checksum_error(&self) -> (r: bool)
        ensures
            r == spec_bit(self.0, 4),
    {
        let v = self.0;
        proof {
            assert((v & 0x10 != 0) == (v & (1u8 << 4u8) != 0)) by (bit_vector);
        }
        v & 0x10 != 0
    }

    /// Bit 3: a value was out of range.  The device documentation assigns
    /// this bit to overheating as well; see [`Self::overheating_error`].
    pub fn range_error(&self) -> (r: bool)
        ensures
            r == spec_bit(self.0, 3),
    {
        let v = self.0;
        proof {
            assert((v & 0x08 != 0) == (v & (1u8 << 3u8) != 0)) by (bit_vector);
        }
        v & 0x08 != 0
    }

    /// Bit 3: the servo is overheating.  The same bit doubles as the range
    /// error; both readings are exposed.
    pub fn overheating_error(&self) -> (r: bool)
        ensures
            r == spec_bit(self.0, 3),
    {
        let v = self.0;
        proof {
            assert((v & 0x08 != 0) == (v & (1u8 << 3u8) != 0)) by (bit_vector);
        }
        v & 0x08 != 0
    }

    /// Bit 1: a goal position was outside the angle limits.
    pub fn angle_limit_error(&self) -> (r: bool)
        ensures
            r == spec_bit(self.0, 1),
    {
        let v = self.0;
        proof {
            assert((v & 0x02 != 0) == (v & (1u8 << 1u8) != 0)) by (bit_vector);
        }
        v & 0x02 != 0
    }

    /// Bit 0: the supply voltage is outside the operating range.
    pub fn input_voltage_error(&self) -> (r: bool)
        ensures
            r == spec_bit(self.0, 0),
    {
        let v = self.0;
        proof {
            assert((v & 0x01 != 0) == (v & (1u8 << 0u8) != 0)) by (bit_vector);
        }
        v & 0x01 != 0
    }
}

/// A typed, addressed field of the servo's control table.
pub trait Register: Sized {
    /// Width on the wire, in bytes.
    spec fn spec_size() -> u8;

    /// Address in the control table.
    spec fn spec_address() -> u8;

    /// Widths are 1, 2 or 4 bytes; the codec's buffers depend on it.
    proof fn size_bounds()
        ensures
            1 <= Self::spec_size() <= 4,
    ;

    /// Width on the wire, in bytes.
    fn size() -> (r: u8)
        ensures
            r == Self::spec_size(),
    ;

    /// Address in the control table.
    fn address() -> (r: u8)
        ensures
            r == Self::spec_address(),
    ;
}

/// A register the servo lets the host read.
pub trait ReadRegister: Register {
    /// The value carried by `SIZE` little-endian wire bytes.
    spec fn spec_deserialize(data: Seq<u8>) -> Self;

    /// Decode `SIZE` little-endian wire bytes.
    fn deserialize(data: &[u8]) -> (r: Self)
        requires
            data@.len() == Self::spec_size(),
        ensures
            r == Self::spec_deserialize(data@),
    ;
}

/// A register the host may write.
pub trait WriteRegister: Register {
    /// Little-endian wire bytes, zero-extended to 4 bytes; only the first
    /// `SIZE` go into a packet.
    spec fn spec_serialize(self) -> Seq<u8>;

    /// The zero-extension always yields exactly 4 bytes.
    proof fn serialize_len(self)
        ensures
            self.spec_serialize().len() == 4,
    ;

    /// Encode as little-endian wire bytes, zero-extended to 4 bytes.
    fn serialize(&self) -> (r: Vec<u8>)
        ensures
            r@ == self.spec_serialize(),
            r@.len() == 4,
    ;
}

/// A register both readable and writable.  Implementors must prove the
/// register invariant: decoding the encoded wire bytes gives the value
/// back.
pub trait ReadWriteRegister: ReadRegister + WriteRegister {
    /// The register round trip: `deserialize(serialize(v)) == v`.
    proof fn round_trip(self)
        ensures
            Self::spec_deserialize(self.spec_serialize().take(Self::spec_size() as int)) == self,
    ;
}

/// For every readable-and-writable register type and every value in its
/// domain, decoding the encoded wire bytes gives the value back.
pub proof fn lemma_register_round_trip<T: ReadWriteRegister>(v: T)
    ensures
        T::spec_deserialize(v.spec_serialize().take(T::spec_size() as int)) == v,
{
    v.round_trip();
}

/// A protocol 1 request packet: `FF FF | ID | LEN | INSTR | params | CKSUM`
/// with `LEN = N_params + 2` and the checksum over ID through the last
/// parameter.  Meaningful when `params` is short enough for LEN to fit a
/// byte.
pub open spec fn p1_request(id: u8, instr: u8, params: Seq<u8>) -> Seq<u8> {
    let len = ((params.len() + 2) % 256) as u8;
    seq![0xffu8, 0xffu8, id, len, instr] + params + seq![
        checksum::spec_checksum(seq![id, len, instr] + params),
    ]
}

/// A protocol 1 status packet: like a request, but the instruction slot
/// carries the device-reported error byte.
pub open spec fn p1_status(id: u8, err: u8, params: Seq<u8>) -> Seq<u8> {
    p1_request(id, err, params)
}

/// What parsing a complete protocol 1 status buffer yields: the responding
/// servo's ID byte and the parameter bytes, or the first error found.
/// `expected_len` is the LEN value the expected status type mandates; the
/// checksum is verified over the frame's announced length first, so that a
/// short error status is still caught intact before its error byte is
/// believed.
pub open spec fn spec_parse_status(data: Seq<u8>, expected_len: u8) -> Result<(u8, Seq<u8>), Error> {
    if data.len() < 6 {
        Err(Error::Format(FormatError::Length))
    } else if data[0] != 0xff || data[1] != 0xff {
        Err(Error::Format(FormatError::Header))
    } else if data[3] < 2 {
        Err(Error::Format(FormatError::Length))
    } else if data.len() != 4 + data[3] {
        Err(Error::Format(FormatError::Length))
    } else if data[3 + data[3] as int] != checksum::spec_checksum(
        data.subrange(2, 3 + data[3] as int),
    ) {
        Err(Error::Format(FormatError::Checksum))
    } else if data[2] > 253 {
        Err(Error::Format(FormatError::ID))
    } else if spec_bit(data[4], 7) {
        Err(Error::Format(FormatError::InvalidError))
    } else if data[4] != 0 {
        Err(Error::Processing(ProcessingError(data[4])))
    } else if data[3] != expected_len {
        Err(Error::Format(FormatError::Length))
    } else {
        Ok((data[2], data.subrange(5, 3 + expected_len)))
    }
}

/// A typed protocol 1 status: how many bytes it occupies and how its
/// parameters decode.
pub trait Status: Sized {
    /// The LEN field a status of this type carries: parameters + 2.
    spec fn spec_length() -> u8;

    /// The typed value carried by the parameter bytes.
    spec fn spec_from_params(params: Seq<u8>) -> Self;

    /// The LEN field a status of this type carries.
    fn length() -> (r: u8)
        ensures
            r == Self::spec_length(),
            2 <= r,
    ;

    /// Decode the parameter bytes.
    fn from_params(params: &[u8]) -> (r: Self)
        requires
            params@.len() == Self::spec_length() - 2,
        ensures
            r == Self::spec_from_params(params@),
    ;
}

/// Parse a complete status buffer into a typed status and the responding
/// servo's identifier.  The frame's integrity — header, announced length
/// and checksum — is verified before its device-reported error byte is
/// believed, so a corrupt frame is a format error, never a processing
/// error.
pub fn parse_status<T: Status>(data: &[u8]) -> (r: Result<(T, ServoID), Error>)
    ensures
        match spec_parse_status(data@, T::spec_length()) {
            Ok((id, params)) => r matches Ok(p) && p.0 == T::spec_from_params(params) && p.1
                == ServoID(id),
            Err(e) => r == Err::<(T, ServoID), Error>(e),
        },
{
    let expected_len = T::length();
    if data.len() < 6 {
        return Err(Error::Format(FormatError::Length));
    }
    if data[0] != 0xff || data[1] != 0xff {
        return Err(Error::Format(FormatError::Header));
    }
    let announced = data[3];
    if announced < 2 {
        return Err(Error::Format(FormatError::Length));
    }
    if data.len() != 4 + announced as usize {
        return Err(Error::Format(FormatError::Length));
    }
    // the frame must prove intact before anything in it is believed
    let covered = vstd::slice::slice_subrange(data, 2, 3 + announced as usize);
    let ck = checksum::Checksum::calc(covered);
    if data[3 + announced as usize] != ck.value() {
        return Err(Error::Format(FormatError::Checksum));
    }
    if data[2] > 253 {
        return Err(Error::Format(FormatError::ID));
    }
    let err_byte = data[4];
    match ProcessingError::decode(err_byte) {
        Err(()) => {
            return Err(Error::Format(FormatError::InvalidError));
        },
        Ok(Some(e)) => {
            return Err(Error::Processing(e));
        },
        Ok(None) => {},
    }
    proof {
        // the error byte is 0 here, so its reserved bit is clear
        assert((0u8 & (1u8 << 7u8)) == 0) by (bit_vector);
    }
    if announced != expected_len {
        return Err(Error::Format(FormatError::Length));
    }
    let params = vstd::slice::slice_subrange(data, 5, 3 + expected_len as usize);
    proof {
        assert(params@.len() == T::spec_length() - 2);
    }
    let value = T::from_params(params);
    Ok((value, ServoID::new(data[2])))
}

/// Parsing inverts encoding: a status packet built for servo `id` with
/// error byte 0 and the given parameters parses back to exactly `id` and
/// those parameters, whatever they hold.
pub proof fn lemma_p1_status_round_trip(id: u8, params: Seq<u8>)
    requires
        id <= 253,
        params.len() + 2 <= 255,
    ensures
        spec_parse_status(p1_status(id, 0, params), (params.len() + 2) as u8) == Ok::<(u8, Seq<u8>), Error>((id, params)),
{
    let len = ((params.len() + 2) % 256) as u8;
    let data = p1_status(id, 0, params);
    assert((0u8 & (1u8 << 7u8)) == 0) by (bit_vector);
    assert(data.len() == 6 + params.len());
    assert(data[0] == 0xff && data[1] == 0xff && data[2] == id && data[3] == len && data[4] == 0);
    assert(data.subrange(2, 3 + len as int) =~= seq![id, len, 0u8] + params);
    assert(data[3 + len as int] == checksum::spec_checksum(seq![id, len, 0u8] + params));
    assert(data.subrange(5, 3 + len as int) =~= params);
}

/// Encoding is a function of the packet's fields alone: equal inputs give
/// the same bytes.
pub proof fn lemma_p1_request_deterministic(
    id1: u8,
    instr1: u8,
    params1: Seq<u8>,
    id2: u8,
    instr2: u8,
    params2: Seq<u8>,
)
    requires
        id1 == id2,
        instr1 == instr2,
        params1 == params2,
    ensures
        p1_request(id1, instr1, params1) == p1_request(id2, instr2, params2),
{
}

/// Everything discovery learns about one protocol 1 servo.
#[derive(Debug, Clone, Copy, PartialEq, Eq, Structural)]
pub struct ServoInfo {
    pub baud_rate: crate::BaudRate,
    pub model_number: u16,
    pub fw_version: u8,
    pub id: ServoID,
}

/// Read one complete status packet from the interface: the 4 bytes
/// through the LEN field first, then as many bytes as LEN announces.  The
/// whole buffer is returned for parsing.
pub fn read_response<I: crate::Interface>(interface: &mut I) -> (r: Result<
    Vec<u8>,
    crate::CommunicationError,
>)
    ensures
        r matches Ok(v) ==> v@.len() >= 4 && v@.len() == 4 + v@[3],
{
    let mut head = match interface.read(4) {
        Ok(v) => v,
        Err(e) => {
            return Err(e);
        },
    };
    let length = head[3] as usize;
    let rest = match interface.read(length) {
        Ok(v) => v,
        Err(e) => {
            return Err(e);
        },
    };
    let ghost head0 = head@;
    let mut i: usize = 0;
    while i < rest.len()
        invariant
            i <= rest@.len(),
            head@ =~= head0 + rest@.take(i as int),
        decreases rest@.len() - i,
    {
        let b = rest[i];
        head.push(b);
        proof {
            assert(rest@.take(i as int + 1) =~= rest@.take(i as int).push(b));
        }
        i = i + 1;
    }
    proof {
        assert(head@[3] == head0[3]);
        assert(head@.len() == 4 + rest@.len());
    }
    Ok(head)
}

/// What discovery asserts of every servo it reports: its baud rate is one
/// of the probed rates, its identifier was taken from a status frame that
/// parsed whole, and its model number and firmware version are the fixed
/// values a protocol 1 pong cannot carry.
pub open spec fn discovered_servo_ok(info: ServoInfo) -> bool {
    &&& crate::BaudRate::spec_variants().contains(info.baud_rate)
    &&& info.model_number == 0x001D
    &&& info.fw_version == 0
    &&& exists|bytes: Seq<u8>| (#[trigger] spec_parse_status(bytes, 2)) matches Ok(p) && p.0
        == info.id.0
}

/// Discover every protocol 1 servo that answers a broadcast ping, probing
/// each baud rate in turn.  A baud the interface does not support is
/// skipped; a read timeout means no further servo will answer at this
/// rate; any other error likewise ends the rate.  At most 253 devices can
/// share the bus, which bounds the collection at each rate.  Every
/// reported servo was heard from: its entry restates a parsed pong.
#[verifier::loop_isolation(false)]
pub fn enumerate<I: crate::Interface>(interface: &mut I) -> (r: Result<
    Vec<ServoInfo>,
    crate::CommunicationError,
>)
    ensures
        r matches Ok(v) ==> forall|i: int|
            0 <= i < v@.len() ==> discovered_servo_ok(#[trigger] v@[i]),
{
    let mut servos: Vec<ServoInfo> = Vec::new();
    let rates = crate::BaudRate::variants();
    let mut bi: usize = 0;
    while bi < rates.len()
        invariant
            forall|i: int| 0 <= i < servos@.len() ==> discovered_servo_ok(#[trigger] servos@[i]),
        decreases rates@.len() - bi,
    {
        let baud = rates[bi];
        proof {
            assert(crate::BaudRate::spec_variants().contains(baud)) by {
                assert(crate::BaudRate::spec_variants()[bi as int] == baud);
            }
        }
        bi = bi + 1;
        match interface.set_baud_rate(baud) {
            Ok(()) => {},
            Err(_) => {
                continue ;
            },
        }
        interface.flush();
        let ping = instruction::Ping::new(PacketID::Broadcast);
        let packet = ping.serialize();
        match interface.write(packet.as_slice()) {
            Ok(()) => {},
            Err(e) => {
                return Err(e);
            },
        }
        let mut answered: usize = 0;
        while answered < 253
            invariant
                forall|i: int|
                    0 <= i < servos@.len() ==> discovered_servo_ok(#[trigger] servos@[i]),
            decreases 253 - answered,
        {
            let response = match read_response(interface) {
                Ok(v) => v,
                Err(_) => {
                    break ;
                },
            };
            match parse_status::<instruction::Pong>(response.as_slice()) {
                Ok((_, id)) => {
                    // a pong carries no model data; MX-28 is the one
                    // protocol 1 model in scope
                    let info = ServoInfo {
                        baud_rate: baud,
                        model_number: 0x001D,
                        fw_version: 0,
                        id,
                    };
                    proof {
                        assert(spec_parse_status(response@, 2) matches Ok(p) && p.0 == info.id.0);
                        assert(discovered_servo_ok(info));
                    }
                    servos.push(info);
                    answered = answered + 1;
                },
                Err(_) => {
                    break ;
                },
            }
        }
    }
    Ok(servos)
}

} // verus!

