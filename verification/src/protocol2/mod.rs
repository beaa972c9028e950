//! Protocol 2: the newer Dynamixel framing.
//!
//! Requests are `FF FF FD 00 | ID | LEN_L LEN_H | INSTR | params | CRC_L
//! CRC_H` where LEN counts the bytes from INSTR through CRC_H inclusive,
//! after byte-stuffing.  Responses put `0x55` in the instruction slot and
//! carry a device-reported error byte before the parameters.

use vstd::prelude::*;

use core::marker::PhantomData;

pub mod bit_stuffer;
pub mod crc;
pub mod instruction;

use bit_stuffer::stuff;
use crc::crc_of;

verus! {

/// A servo identifier; protocol 2 allows 0 through 252.
#[derive(Debug, PartialEq, Eq, Copy, Clone, Structural)]
pub struct ServoID(pub u8);

impl ServoID {
    /// Wrap an identifier known to be in range.
    pub fn new(id: u8) -> (r: ServoID)
        requires
            id <= 252,
        ensures
            r.0 == id,
    {
        ServoID(id)
    }

    /// Wrap an identifier, rejecting out-of-range values.
    pub fn try_new(id: u8) -> (r: Option<ServoID>)
        ensures
            r matches Some(s) ==> s.0 == id && id <= 252,
            r is None <==> id > 252,
    {
        if id <= 252 {
            Some(ServoID(id))
        } else {
            None
        }
    }

    /// The identifier byte.
    pub fn value(&self) -> (r: u8)
        ensures
            r == self.0,
    {
        self.0
    }
}

/// The recipient of a request: one servo or every servo on the bus.
#[derive(Debug, PartialEq, Eq, Copy, Clone, Structural)]
pub enum PacketID {
    Unicast(ServoID),
    Broadcast,
}

impl PacketID {
    /// The byte that goes on the wire: the unicast ID verbatim, 254 for
    /// broadcast.
    pub open spec fn spec_byte(self) -> u8 {
        match self {
            PacketID::Unicast(id) => id.0,
            PacketID::Broadcast => 254,
        }
    }

    /// Address a single servo.
    pub fn unicast(id: u8) -> (r: PacketID)
        requires
            id <= 252,
        ensures
            r == PacketID::Unicast(ServoID(id)),
    {
        PacketID::Unicast(ServoID::new(id))
    }

    /// Address every servo on the bus.  Broadcast requests yield no
    /// response.
    pub fn broadcast() -> (r: PacketID)
        ensures
            r == PacketID::Broadcast,
    {
        PacketID::Broadcast
    }

    /// Convert a unicast servo identifier.
    pub fn from_servo(id: ServoID) -> (r: PacketID)
        ensures
            r == PacketID::Unicast(id),
    {
        PacketID::Unicast(id)
    }

    /// The byte that goes on the wire.
    pub fn as_byte(&self) -> (r: u8)
        ensures
            r == self.spec_byte(),
    {
        match self {
            PacketID::Unicast(id) => id.0,
            PacketID::Broadcast => 254,
        }
    }
}

/// Any protocol 2 error: incomplete parse, transport, framing, or
/// device-reported.
#[derive(Debug, PartialEq, Eq, Clone, Copy, Structural)]
pub enum Error {
    Unfinished,
    Communication(crate::CommunicationError),
    Format(FormatError),
    Processing(ProcessingError),
}

/// A malformed or corrupt protocol 2 frame.
#[derive(Debug, PartialEq, Eq, Clone, Copy, Structural)]
pub enum FormatError {
    Header,
    ID,
    Length,
    Instruction,
    InvalidError(u8),
    CRC,
    StuffByte,
    NotFinished,
}

impl FormatError {
    /// Which framing error a rejected stream byte maps to.
    pub open spec fn spec_of_stuffer(e: bit_stuffer::BitStufferError) -> FormatError {
        match e {
            bit_stuffer::BitStufferError::ExpectedStuffByte => FormatError::StuffByte,
            _ => FormatError::Header,
        }
    }

    /// Map a rejected stream byte to the framing error it signals.
    pub fn of_stuffer(e: bit_stuffer::BitStufferError) -> (r: FormatError)
        ensures
            r == FormatError::spec_of_stuffer(e),
    {
        match e {
            bit_stuffer::BitStufferError::ExpectedStuffByte => FormatError::StuffByte,
            _ => FormatError::Header,
        }
    }
}

/// The device-reported status of a processed request, when not successful.
/// Protocol 2 enumerates these in the low 7 bits of the status error byte.
#[derive(Debug, PartialEq, Eq, Clone, Copy, Structural)]
pub enum ProcessingError {
    ResultFail,
    InstructionError,
    CRCError,
    DataRangeError,
    DataLengthError,
    DataLimitError,
    AccessError,
}

impl ProcessingError {
    /// The code a processing error decodes from.
    pub open spec fn spec_code(self) -> u8 {
        match self {
            ProcessingError::ResultFail => 0x01,
            ProcessingError::InstructionError => 0x02,
            ProcessingError::CRCError => 0x03,
            ProcessingError::DataRangeError => 0x04,
            ProcessingError::DataLengthError => 0x05,
            ProcessingError::DataLimitError => 0x06,
            ProcessingError::AccessError => 0x07,
        }
    }

    /// What the low 7 bits of the status error byte mean: 0 is success,
    /// 1 through 7 are the enumerated errors, the rest are malformed.
    pub open spec fn spec_decode(e: u8) -> Result<Option<ProcessingError>, FormatError> {
        if e == 0x00 {
            Ok(None)
        } else if e == 0x01 {
            Ok(Some(ProcessingError::ResultFail))
        } else if e == 0x02 {
            Ok(Some(ProcessingError::InstructionError))
        } else if e == 0x03 {
            Ok(Some(ProcessingError::CRCError))
        } else if e == 0x04 {
            Ok(Some(ProcessingError::DataRangeError))
        } else if e == 0x05 {
            Ok(Some(ProcessingError::DataLengthError))
        } else if e == 0x06 {
            Ok(Some(ProcessingError::DataLimitError))
        } else if e == 0x07 {
            Ok(Some(ProcessingError::AccessError))
        } else {
            Err(FormatError::InvalidError(e))
        }
    }

    /// Decode the low 7 bits of the status error byte.
    pub fn decode(e: u8) -> (r: Result<Option<ProcessingError>, FormatError>)
        ensures
            r == ProcessingError::spec_decode(e),
    {
        match e {
            0x00 => Ok(None),
            0x01 => Ok(Some(ProcessingError::ResultFail)),
            0x02 => Ok(Some(ProcessingError::InstructionError)),
            0x03 => Ok(Some(ProcessingError::CRCError)),
            0x04 => Ok(Some(ProcessingError::DataRangeError)),
            0x05 => Ok(Some(ProcessingError::DataLengthError)),
            0x06 => Ok(Some(ProcessingError::DataLimitError)),
            0x07 => Ok(Some(ProcessingError::AccessError)),
            x => Err(FormatError::InvalidError(x)),
        }
    }

    /// The code this error decodes from.
    pub fn code(&self) -> (r: u8)
        ensures
            r == self.spec_code(),
    {
        match self {
            ProcessingError::ResultFail => 0x01,
            ProcessingError::InstructionError => 0x02,
            ProcessingError::CRCError => 0x03,
            ProcessingError::DataRangeError => 0x04,
            ProcessingError::DataLengthError => 0x05,
            ProcessingError::DataLimitError => 0x06,
            ProcessingError::AccessError => 0x07,
        }
    }
}

/// A typed, addressed field of the servo's control table.
pub trait Register: Sized {
    /// Width on the wire, in bytes.
    spec fn spec_size() -> u16;

    /// Address in the control table.
    spec fn spec_address() -> u16;

    /// Widths are 1, 2 or 4 bytes; the codec's buffers depend on it.
    proof fn size_bounds()
        ensures
            1 <= Self::spec_size() <= 4,
    ;

    /// Width on the wire, in bytes.
    fn size() -> (r: u16)
        ensures
            r == Self::spec_size(),
    ;

    /// Address in the control table.
    fn address() -> (r: u16)
        ensures
            r == Self::spec_address(),
    ;
}

/// A register the servo lets the host read.
pub trait ReadRegister: Register {
    /// The value carried by `SIZE` little-endian wire bytes.
    spec fn spec_deserialize(data: Seq<u8>) -> Self;

    /// Decode `SIZE` little-endian wire bytes.
    fn deserialize(data: &[u8]) -> (r: Self)
        requires
            data@.len() == Self::spec_size(),
        ensures
            r == Self::spec_deserialize(data@),
    ;
}

/// A register the host may write.
pub trait WriteRegister: Register {
    /// Little-endian wire bytes, zero-extended to 4 bytes; only the first
    /// `SIZE` go into a packet.
    spec fn spec_serialize(self) -> Seq<u8>;

    /// The zero-extension always yields exactly 4 bytes.
    proof fn serialize_len(self)
        ensures
            self.spec_serialize().len() == 4,
    ;

    /// Encode as little-endian wire bytes, zero-extended to 4 bytes.
    fn serialize(&self) -> (r: Vec<u8>)
        ensures
            r@ == self.spec_serialize(),
            r@.len() == 4,
    ;
}

/// A register both readable and writable.  Implementors must prove the
/// register invariant: decoding the encoded wire bytes gives the value
/// back.
pub trait ReadWriteRegister: ReadRegister + WriteRegister {
    /// The register round trip: `deserialize(serialize(v)) == v`.
    proof fn round_trip(self)
        ensures
            Self::spec_deserialize(self.spec_serialize().take(Self::spec_size() as int)) == self,
    ;
}

/// For every readable-and-writable register type and every value in its
/// domain, decoding the encoded wire bytes gives the value back.
pub proof fn lemma_register_round_trip<T: ReadWriteRegister>(v: T)
    ensures
        T::spec_deserialize(v.spec_serialize().take(T::spec_size() as int)) == v,
{
    v.round_trip();
}

/// A protocol 2 request packet for instruction `instr` with the given
/// parameter bytes: header, ID, little-endian length (counting INSTR
/// through CRC_H after stuffing), the stuffed region, and the little-endian
/// CRC over everything before it.
pub open spec fn p2_request(id: u8, instr: u8, params: Seq<u8>) -> Seq<u8> {
    let region = stuff(seq![instr] + params);
    let length = region.len() + 2;
    let head = seq![
        0xffu8,
        0xffu8,
        0xfdu8,
        0x00u8,
        id,
        (length % 256) as u8,
        ((length / 256) % 256) as u8,
    ] + region;
    let c = crc_of(head);
    head + seq![(c & 0xff) as u8, ((c >> 8) & 0xff) as u8]
}

/// A protocol 2 status packet: the instruction slot carries `0x55` and the
/// error byte precedes the parameters; the stuffed region covers both.
pub open spec fn p2_status(id: u8, err: u8, params: Seq<u8>) -> Seq<u8> {
    let region = stuff(seq![0x55u8, err] + params);
    let length = region.len() + 2;
    let head = seq![
        0xffu8,
        0xffu8,
        0xfdu8,
        0x00u8,
        id,
        (length % 256) as u8,
        ((length / 256) % 256) as u8,
    ] + region;
    let c = crc_of(head);
    head + seq![(c & 0xff) as u8, ((c >> 8) & 0xff) as u8]
}

/// An instruction that can be serialized into a request packet.
pub trait Instruction {
    /// The instruction value byte.
    spec fn spec_instruction_value() -> u8;

    /// The parameter bytes, before stuffing.
    spec fn spec_params(&self) -> Seq<u8>;

    /// The recipient.
    spec fn spec_id(&self) -> PacketID;

    /// Every in-scope instruction carries at most 6 parameter bytes (the
    /// widest is a write of a 4-byte register plus its 2-byte address).
    proof fn params_bound(&self)
        ensures
            self.spec_params().len() <= 6,
    ;

    /// The instruction value byte.
    fn instruction_value() -> (r: u8)
        ensures
            r == Self::spec_instruction_value(),
    ;

    /// The recipient.
    fn id(&self) -> (r: PacketID)
        ensures
            r == self.spec_id(),
    ;

    /// How many parameter bytes the instruction carries.
    fn parameter_count(&self) -> (r: u16)
        ensures
            r == self.spec_params().len(),
    ;

    /// The parameter byte at `index`.
    fn parameter(&self, index: usize) -> (r: u8)
        requires
            index < self.spec_params().len(),
        ensures
            r == self.spec_params()[index as int],
    ;
}

/// A typed protocol 2 status: how many parameter bytes it carries and how
/// they decode.
pub trait Status: Sized {
    /// How many parameter bytes a status of this type carries.
    spec fn spec_parameters() -> u16;

    /// The typed value carried by the parameter bytes.
    spec fn spec_from_params(params: Seq<u8>) -> Self;

    /// Statuses in scope carry at most 6 parameter bytes, the parameter
    /// buffer's size.
    proof fn parameters_bound()
        ensures
            Self::spec_parameters() <= 6,
    ;

    /// How many parameter bytes a status of this type carries.
    fn parameters() -> (r: u16)
        ensures
            r == Self::spec_parameters(),
    ;

    /// Decode the parameter bytes.
    fn from_params(params: &[u8]) -> (r: Self)
        requires
            params@.len() == Self::spec_parameters(),
        ensures
            r == Self::spec_from_params(params@),
    ;
}

/// Serialize an instruction into its request packet: the payload region is
/// emitted through the stuffing tracker into a buffer first, so the length
/// field can count the stuffed bytes, then the packet is assembled and the
/// CRC computed over everything before the CRC field.
#[verifier::loop_isolation(false)]
pub fn serialize_instruction<T: Instruction>(inst: &T) -> (r: Vec<u8>)
    ensures
        r@ == p2_request(inst.spec_id().spec_byte(), T::spec_instruction_value(), inst.spec_params()),
        r@.len() >= 10,
{
    proof {
        inst.params_bound();
    }
    let ghost payload = seq![T::spec_instruction_value()] + inst.spec_params();
    let count = inst.parameter_count();

    // first pass: stuff the region (instruction byte, then parameters)
    let mut region: Vec<u8> = Vec::new();
    let mut tracker = bit_stuffer::BitStuffer { state: bit_stuffer::BitStufferState::B0 };
    let instr = T::instruction_value();
    region.push(instr);
    tracker = advance_payload(tracker, instr, &mut region);
    proof {
        assert(payload.take(1) =~= seq![T::spec_instruction_value()]);
        assert(seq![instr] =~= Seq::<u8>::empty().push(instr));
        bit_stuffer::lemma_stuff_snoc(0, Seq::<u8>::empty(), instr);
        assert(region@ == bit_stuffer::stuff_from(0, payload.take(1)));
    }
    let mut i: usize = 0;
    while i < count as usize
        invariant
            i <= inst.spec_params().len(),
            region@ == bit_stuffer::stuff_from(0, payload.take(1 + i as int)),
            bit_stuffer::match_count(tracker.state) == bit_stuffer::count_after(
                0,
                payload.take(1 + i as int),
            ),
            0 <= bit_stuffer::match_count(tracker.state) <= 2,
        decreases count as int - i,
    {
        let b = inst.parameter(i);
        proof {
            assert(payload.take(1 + i as int + 1) =~= payload.take(1 + i as int).push(b));
            bit_stuffer::lemma_stuff_snoc(0, payload.take(1 + i as int), b);
        }
        region.push(b);
        tracker = advance_payload(tracker, b, &mut region);
        i = i + 1;
    }
    proof {
        assert(payload.take(1 + inst.spec_params().len() as int) =~= payload);
        bit_stuffer::lemma_stuff_len(0, payload);
    }

    // second pass: assemble the packet around the measured region
    let length: usize = region.len() + 2;
    let mut r: Vec<u8> = Vec::new();
    r.push(0xff);
    r.push(0xff);
    r.push(0xfd);
    r.push(0x00);
    r.push(inst.id().as_byte());
    r.push(length as u8);
    r.push(0x00);
    let mut j: usize = 0;
    while j < region.len()
        invariant
            j <= region@.len(),
            r@ =~= seq![
                0xffu8,
                0xffu8,
                0xfdu8,
                0x00u8,
                inst.spec_id().spec_byte(),
                (length % 256) as u8,
                0x00u8,
            ] + region@.take(j as int),
        decreases region@.len() - j,
    {
        let b = region[j];
        r.push(b);
        proof {
            assert(region@.take(j as int + 1) =~= region@.take(j as int).push(b));
        }
        j = j + 1;
    }
    proof {
        assert(region@.take(region@.len() as int) =~= region@);
        let head = seq![
            0xffu8,
            0xffu8,
            0xfdu8,
            0x00u8,
            inst.spec_id().spec_byte(),
            (length % 256) as u8,
            ((length / 256) % 256) as u8,
        ] + bit_stuffer::stuff(payload);
        assert(r@ =~= head);
    }
    let mut running = crc::Crc::new();
    running.add(r.as_slice());
    let c = running.value();
    r.push((c & 0xff) as u8);
    r.push(((c >> 8u16) & 0xff) as u8);
    proof {
        assert(r@ =~= p2_request(
            inst.spec_id().spec_byte(),
            T::spec_instruction_value(),
            inst.spec_params(),
        ));
    }
    r
}

/// Step the stuffing tracker over one payload byte just emitted into
/// `region`, appending the stuff byte right away when the byte completed
/// the reserved sequence.
#[verifier::loop_isolation(false)]
fn advance_payload(
    tracker: bit_stuffer::BitStuffer,
    b: u8,
    region: &mut Vec<u8>,
) -> (r: bit_stuffer::BitStuffer)
    requires
        0 <= bit_stuffer::match_count(tracker.state) <= 2,
    ensures
        ({
            let k2 = bit_stuffer::count_step(bit_stuffer::match_count(tracker.state), b);
            &&& bit_stuffer::match_count(r.state) == (if k2 == 3 {
                0int
            } else {
                k2
            })
            &&& final(region)@ == old(region)@ + (if k2 == 3 {
                seq![0xfdu8]
            } else {
                Seq::<u8>::empty()
            })
        }),
{
    let stepped = match tracker.add_byte(b) {
        Ok(t) => t,
        Err(_) => {
            // payload states below B3 accept every byte
            proof {
                assert(false);
            }
            tracker
        },
    };
    if stepped.stuff_next() {
        region.push(0xfd);
        let again = match stepped.add_byte(0xfd) {
            Ok(t) => t,
            Err(_) => {
                // B3 accepts exactly the stuff byte being inserted
                proof {
                    assert(false);
                }
                stepped
            },
        };
        again
    } else {
        proof {
            assert(region@ =~= old(region)@ + Seq::<u8>::empty());
        }
        stepped
    }
}

/// Everything discovery learns about one protocol 2 servo.
#[derive(Debug, Clone, Copy, PartialEq, Eq, Structural)]
pub struct ServoInfo {
    pub baud_rate: crate::BaudRate,
    pub model_number: u16,
    pub fw_version: u8,
    pub id: ServoID,
}

/// What one deserializer call reports: more bytes are owed, or the packet
/// is complete.
#[derive(Debug, PartialEq, Eq, Clone, Copy, Structural)]
pub enum DeserializationStatus {
    Incomplete,
    Finished,
}

/// The body-phase parser state, as specifications see it.
pub ghost struct BodyView {
    /// Body bytes still owed: the unread stuffed parameter bytes plus the
    /// two CRC bytes.
    pub remaining: int,
    /// The responding servo's identifier byte.
    pub id: u8,
    /// The CRC low byte, once read.
    pub crc_low: Option<u8>,
    /// The running CRC over every packet byte before the CRC field.
    pub crc: u16,
    /// The stuffing tracker's state.
    pub stuffer: bit_stuffer::BitStufferState,
    /// The alert flag from the status error byte (bit 7): a hardware
    /// warning, not an error.
    pub alert: bool,
    /// The decoded device-reported error, if any.
    pub proc_err: Option<ProcessingError>,
    /// The de-stuffed parameter bytes read so far.
    pub params: Seq<u8>,
}

/// How one body byte moves the parser.  Inside the parameter region a
/// pending stuff byte is consumed without being stored, any other byte is
/// stored; the last two bytes carry the CRC, which must match the running
/// value; any byte beyond the announced length is an error.  More than 6
/// stored parameters overflow the parameter buffer, which no status in
/// scope can fill.  On an error the byte is rejected and the state does
/// not move.
pub open spec fn body_step(s: BodyView, b: u8) -> Result<BodyView, FormatError> {
    if s.stuffer is B3 && s.remaining > 2 {
        match bit_stuffer::spec_step(s.stuffer, b) {
            Ok(st) => Ok(
                BodyView {
                    remaining: s.remaining - 1,
                    stuffer: st,
                    crc: crc::crc_add_byte(s.crc, b),
                    ..s
                },
            ),
            Err(e) => Err(FormatError::spec_of_stuffer(e)),
        }
    } else if s.remaining > 2 {
        if s.params.len() >= 6 {
            Err(FormatError::Length)
        } else {
            match bit_stuffer::spec_step(s.stuffer, b) {
                Ok(st) => Ok(
                    BodyView {
                        remaining: s.remaining - 1,
                        stuffer: st,
                        crc: crc::crc_add_byte(s.crc, b),
                        params: s.params.push(b),
                        ..s
                    },
                ),
                Err(e) => Err(FormatError::spec_of_stuffer(e)),
            }
        }
    } else if s.remaining == 2 {
        Ok(BodyView { remaining: 1, crc_low: Some(b), ..s })
    } else if s.remaining == 1 {
        match s.crc_low {
            Some(lo) => if (lo as u16) | ((b as u16) << 8) == s.crc {
                Ok(BodyView { remaining: 0, ..s })
            } else {
                Err(FormatError::CRC)
            },
            None => Err(FormatError::CRC),
        }
    } else {
        Err(FormatError::Length)
    }
}

/// Feed a byte sequence to the body parser: the state after the bytes, or
/// the state just before the first rejected byte together with its error.
pub open spec fn body_fold(s: BodyView, data: Seq<u8>) -> (BodyView, Option<FormatError>)
    decreases data.len(),
{
    if data.len() == 0 {
        (s, None)
    } else {
        match body_step(s, data[0]) {
            Ok(s2) => body_fold(s2, data.drop_first()),
            Err(e) => (s, Some(e)),
        }
    }
}

/// Feeding a concatenation is feeding the parts in order: the parser does
/// not care how the byte stream is chunked.
pub proof fn lemma_body_fold_append(s: BodyView, a: Seq<u8>, b: Seq<u8>)
    ensures
        body_fold(s, a + b) == if body_fold(s, a).1 is Some {
            body_fold(s, a)
        } else {
            body_fold(body_fold(s, a).0, b)
        },
    decreases a.len(),
{
    if a.len() == 0 {
        assert(a + b =~= b);
    } else {
        assert((a + b)[0] == a[0]);
        assert((a + b).drop_first() =~= a.drop_first() + b);
        match body_step(s, a[0]) {
            Ok(s2) => {
                lemma_body_fold_append(s2, a.drop_first(), b);
            },
            Err(e) => {},
        }
    }
}

/// What parsing the 9 header bytes yields: the initial body parser state,
/// or the first framing error found.  The header bytes walk the stuffing
/// tracker and the CRC along with everything else.
pub open spec fn header_parse(h: Seq<u8>) -> Result<BodyView, FormatError> {
    if h[0] != 0xff || h[1] != 0xff || h[2] != 0xfd || h[3] != 0x00 {
        Err(FormatError::Header)
    } else if h[7] != 0x55 {
        Err(FormatError::Instruction)
    } else if h[4] > 252 {
        Err(FormatError::ID)
    } else if (h[5] as int) + 256 * (h[6] as int) < 2 {
        Err(FormatError::Length)
    } else {
        match bit_stuffer::fold_state(bit_stuffer::BitStufferState::H0, h) {
            Ok(st) => match ProcessingError::spec_decode(h[8] & 0x7f) {
                Ok(pe) => Ok(
                    BodyView {
                        remaining: (h[5] as int) + 256 * (h[6] as int) - 2,
                        id: h[4],
                        crc_low: None,
                        crc: crc_of(h),
                        stuffer: st,
                        alert: h[8] & 0x80 != 0,
                        proc_err: pe,
                        params: Seq::<u8>::empty(),
                    },
                ),
                Err(e) => Err(e),
            },
            Err(e) => Err(FormatError::spec_of_stuffer(e)),
        }
    }
}

/// The whole-packet parser state: the buffered header bytes, then the body
/// parser once 9 header bytes were accepted.
pub ghost struct DeserializerView {
    pub header: Seq<u8>,
    pub body: Option<BodyView>,
}

/// How one packet byte moves the parser: buffered into the header until 9
/// bytes are there (the 9th triggers header parsing), handed to the body
/// parser afterwards.  A rejected byte leaves the state unmoved.
pub open spec fn deser_step(s: DeserializerView, b: u8) -> Result<DeserializerView, FormatError> {
    match s.body {
        Some(bv) => match body_step(bv, b) {
            Ok(b2) => Ok(DeserializerView { header: s.header, body: Some(b2) }),
            Err(e) => Err(e),
        },
        None => {
            let h = s.header.push(b);
            if h.len() < 9 {
                Ok(DeserializerView { header: h, body: None })
            } else {
                match header_parse(h) {
                    Ok(bv) => Ok(DeserializerView { header: h, body: Some(bv) }),
                    Err(e) => Err(e),
                }
            }
        },
    }
}

/// Feed a byte sequence to the whole-packet parser: the state after the
/// bytes, or the state just before the first rejected byte together with
/// its error.
pub open spec fn deser_fold(s: DeserializerView, data: Seq<u8>) -> (
    DeserializerView,
    Option<FormatError>,
)
    decreases data.len(),
{
    if data.len() == 0 {
        (s, None)
    } else {
        match deser_step(s, data[0]) {
            Ok(s2) => deser_fold(s2, data.drop_first()),
            Err(e) => (s, Some(e)),
        }
    }
}

/// The parse result is independent of chunking: feeding two chunks in turn
/// is feeding their concatenation.
pub proof fn lemma_deser_fold_append(s: DeserializerView, a: Seq<u8>, b: Seq<u8>)
    ensures
        deser_fold(s, a + b) == if deser_fold(s, a).1 is Some {
            deser_fold(s, a)
        } else {
            deser_fold(deser_fold(s, a).0, b)
        },
    decreases a.len(),
{
    if a.len() == 0 {
        assert(a + b =~= b);
    } else {
        assert((a + b)[0] == a[0]);
        assert((a + b).drop_first() =~= a.drop_first() + b);
        match deser_step(s, a[0]) {
            Ok(s2) => {
                lemma_deser_fold_append(s2, a.drop_first(), b);
            },
            Err(e) => {},
        }
    }
}

/// A complete packet was consumed.
pub open spec fn view_finished(s: DeserializerView) -> bool {
    s.body matches Some(bv) && bv.remaining == 0
}

/// The stored parameters, brought to the length the expected status type
/// mandates: truncated if more were stored, zero-padded if fewer.
pub open spec fn sized_params(params: Seq<u8>, n: int) -> Seq<u8> {
    if params.len() >= n {
        params.take(n)
    } else {
        params + Seq::<u8>::new((n - params.len()) as nat, |i: int| 0u8)
    }
}

/// What building the typed status from a parser state yields: the typed
/// value for a finished, error-free packet; the device-reported error if
/// one was decoded; `Unfinished` before that.
pub open spec fn spec_build<T: Status>(s: DeserializerView) -> Result<T, Error> {
    match s.body {
        None => Err(Error::Unfinished),
        Some(bv) => if bv.remaining != 0 {
            Err(Error::Unfinished)
        } else {
            match bv.proc_err {
                Some(e) => Err(Error::Processing(e)),
                None => Ok(T::spec_from_params(sized_params(bv.params, T::spec_parameters() as int))),
            }
        },
    }
}

/// The body-phase parser: everything after the 9 header bytes.
pub struct BodyDeserializer {
    remaining_bytes: u16,
    id: ServoID,
    crc_low: Option<u8>,
    crc_calc: crc::Crc,
    bit_stuffer: bit_stuffer::BitStuffer,
    alert: bool,
    processing_error: Option<ProcessingError>,
    parameters: Vec<u8>,
}

impl View for BodyDeserializer {
    type V = BodyView;

    closed spec fn view(&self) -> BodyView {
        BodyView {
            remaining: self.remaining_bytes as int,
            id: self.id.0,
            crc_low: self.crc_low,
            crc: self.crc_calc.value,
            stuffer: self.bit_stuffer.state,
            alert: self.alert,
            proc_err: self.processing_error,
            params: self.parameters@,
        }
    }
}

impl BodyDeserializer {
    /// A complete packet was consumed.
    pub fn is_finished(&self) -> (r: bool)
        ensures
            r == (self@.remaining == 0),
    {
        self.remaining_bytes == 0
    }

    /// How many body bytes are still owed.
    pub fn remaining_bytes(&self) -> (r: u16)
        ensures
            r == self@.remaining,
    {
        self.remaining_bytes
    }

    /// The responding servo's identifier.
    pub fn id(&self) -> (r: ServoID)
        ensures
            r.0 == self@.id,
    {
        self.id
    }

    /// The alert flag from the status error byte: a hardware warning
    /// independent of the processing error.
    pub fn alert(&self) -> (r: bool)
        ensures
            r == self@.alert,
    {
        self.alert
    }

    /// Consume one body byte.
    fn step(&mut self, b: u8) -> (r: Result<(), FormatError>)
        ensures
            match body_step(old(self)@, b) {
                Ok(v) => r is Ok && final(self)@ == v,
                Err(e) => r == Err::<(), FormatError>(e) && final(self)@ == old(self)@,
            },
    {
        if self.bit_stuffer.stuff_next() && self.remaining_bytes > 2 {
            match self.bit_stuffer.add_byte(b) {
                Ok(st) => {
                    self.bit_stuffer = st;
                    self.crc_calc.add_byte(b);
                    self.remaining_bytes = self.remaining_bytes - 1;
                    Ok(())
                },
                Err(e) => Err(FormatError::of_stuffer(e)),
            }
        } else if self.remaining_bytes > 2 {
            if self.parameters.len() >= 6 {
                Err(FormatError::Length)
            } else {
                match self.bit_stuffer.add_byte(b) {
                    Ok(st) => {
                        self.bit_stuffer = st;
                        self.crc_calc.add_byte(b);
                        self.parameters.push(b);
                        self.remaining_bytes = self.remaining_bytes - 1;
                        Ok(())
                    },
                    Err(e) => Err(FormatError::of_stuffer(e)),
                }
            }
        } else if self.remaining_bytes == 2 {
            self.crc_low = Some(b);
            self.remaining_bytes = 1;
            Ok(())
        } else if self.remaining_bytes == 1 {
            match self.crc_low {
                Some(lo) => {
                    let received: u16 = (lo as u16) | ((b as u16) << 8u16);
                    if received == self.crc_calc.value() {
                        self.remaining_bytes = 0;
                        Ok(())
                    } else {
                        Err(FormatError::CRC)
                    }
                },
                None => Err(FormatError::CRC),
            }
        } else {
            Err(FormatError::Length)
        }
    }

    /// Consume a chunk of body bytes, of any size: the parse result does
    /// not depend on how the stream is cut.
    pub fn deserialize(&mut self, data: &[u8]) -> (r: Result<DeserializationStatus, FormatError>)
        ensures
            final(self)@ == body_fold(old(self)@, data@).0,
            match body_fold(old(self)@, data@).1 {
                None => r == Ok::<DeserializationStatus, FormatError>(
                    if body_fold(old(self)@, data@).0.remaining == 0 {
                        DeserializationStatus::Finished
                    } else {
                        DeserializationStatus::Incomplete
                    },
                ),
                Some(e) => r == Err::<DeserializationStatus, FormatError>(e),
            },
    {
        let mut i: usize = 0;
        while i < data.len()
            invariant
                i <= data@.len(),
                body_fold(old(self)@, data@.take(i as int)) == (self@, None::<FormatError>),
            decreases data@.len() - i,
        {
            let b = data[i];
            proof {
                assert(data@.take(i as int + 1) =~= data@.take(i as int) + seq![b]);
                lemma_body_fold_append(old(self)@, data@.take(i as int), seq![b]);
                reveal_with_fuel(body_fold, 2);
                assert(seq![b].drop_first() =~= Seq::<u8>::empty());
            }
            match self.step(b) {
                Ok(()) => {},
                Err(e) => {
                    proof {
                        lemma_body_fold_append(old(self)@, data@.take(i as int), data@.skip(i as int));
                        assert(data@ =~= data@.take(i as int) + data@.skip(i as int));
                        assert(data@.skip(i as int)[0] == b);
                    }
                    return Err(e);
                },
            }
            i = i + 1;
        }
        proof {
            assert(data@.take(data@.len() as int) =~= data@);
        }
        if self.remaining_bytes == 0 {
            Ok(DeserializationStatus::Finished)
        } else {
            Ok(DeserializationStatus::Incomplete)
        }
    }

    /// Produce the typed status: the decoded parameters of a finished,
    /// error-free packet; the device-reported processing error if one was
    /// announced; `Unfinished` if bytes are still owed.
    pub fn build<T: Status>(self) -> (r: Result<T, Error>)
        ensures
            r == spec_build::<T>(
                DeserializerView { header: Seq::<u8>::empty(), body: Some(self@) },
            ),
    {
        if self.remaining_bytes != 0 {
            return Err(Error::Unfinished);
        }
        match self.processing_error {
            Some(e) => Err(Error::Processing(e)),
            None => {
                let n = T::parameters() as usize;
                let mut sized: Vec<u8> = Vec::new();
                let mut i: usize = 0;
                while i < n
                    invariant
                        i <= n,
                        n == T::spec_parameters(),
                        sized@ =~= sized_params(self.parameters@, n as int).take(i as int),
                    decreases n - i,
                {
                    if i < self.parameters.len() {
                        sized.push(self.parameters[i]);
                    } else {
                        sized.push(0);
                    }
                    proof {
                        assert(sized_params(self.parameters@, n as int).take(i as int + 1)
                            =~= sized_params(self.parameters@, n as int).take(i as int).push(
                            sized_params(self.parameters@, n as int)[i as int],
                        ));
                    }
                    i = i + 1;
                }
                proof {
                    assert(sized@ =~= sized_params(self.parameters@, n as int));
                }
                Ok(T::from_params(sized.as_slice()))
            },
        }
    }
}

/// Parse a buffered header (9 bytes when well-formed) into a body-phase
/// parser.
#[verifier::loop_isolation(false)]
fn parse_header_bytes(data: &[u8]) -> (r: Result<BodyDeserializer, FormatError>)
    requires
        data@.len() >= 9,
    ensures
        match header_parse(data@) {
            Ok(bv) => r matches Ok(b) && b@ == bv,
            Err(e) => r == Err::<BodyDeserializer, FormatError>(e),
        },
{
    if data[0] != 0xff || data[1] != 0xff || data[2] != 0xfd || data[3] != 0x00 {
        return Err(FormatError::Header);
    }
    if data[7] != 0x55 {
        return Err(FormatError::Instruction);
    }
    if data[4] > 252 {
        return Err(FormatError::ID);
    }
    let length: u16 = (data[5] as u16) | ((data[6] as u16) << 8u16);
    proof {
        let lo = data@[5];
        let hi = data@[6];
        assert((lo as u16) | ((hi as u16) << 8) == lo as u16 + 256 * (hi as u16)) by (bit_vector);
    }
    if length < 2 {
        return Err(FormatError::Length);
    }
    let mut tracker = bit_stuffer::BitStuffer::new();
    let mut i: usize = 0;
    while i < data.len()
        invariant
            i <= data@.len(),
            bit_stuffer::fold_state(bit_stuffer::BitStufferState::H0, data@.take(i as int))
                == Ok::<bit_stuffer::BitStufferState, bit_stuffer::BitStufferError>(tracker.state),
        decreases data@.len() - i,
    {
        proof {
            assert(data@.take(i as int + 1) =~= data@.take(i as int) + seq![data@[i as int]]);
            bit_stuffer::lemma_fold_state_append(
                bit_stuffer::BitStufferState::H0,
                data@.take(i as int),
                seq![data@[i as int]],
            );
            reveal_with_fuel(bit_stuffer::fold_state, 2);
            assert(seq![data@[i as int]].drop_first() =~= Seq::<u8>::empty());
        }
        match tracker.add_byte(data[i]) {
            Ok(t) => {
                tracker = t;
            },
            Err(e) => {
                proof {
                    bit_stuffer::lemma_fold_state_append(
                        bit_stuffer::BitStufferState::H0,
                        data@.take(i as int),
                        data@.skip(i as int),
                    );
                    assert(data@.take(i as int) + data@.skip(i as int) =~= data@);
                    assert(data@.skip(i as int)[0] == data@[i as int]);
                }
                return Err(FormatError::of_stuffer(e));
            },
        }
        i = i + 1;
    }
    proof {
        assert(data@.take(data@.len() as int) =~= data@);
    }
    let alert = data[8] & 0x80 != 0;
    let code = data[8] & 0x7f;
    let processing_error = match ProcessingError::decode(code) {
        Ok(pe) => pe,
        Err(e) => {
            return Err(e);
        },
    };
    let mut crc_calc = crc::Crc::new();
    crc_calc.add(data);
    Ok(
        BodyDeserializer {
            remaining_bytes: length - 2,
            id: ServoID::new(data[4]),
            crc_low: None,
            crc_calc,
            bit_stuffer: tracker,
            alert,
            processing_error,
            parameters: Vec::new(),
        },
    )
}

/// The whole-packet parser for the status an instruction of type `T`
/// elicits.  Bytes can be fed in chunks of any size; the result never
/// depends on the chunking.
pub struct Deserializer<T: Status> {
    header: Vec<u8>,
    in_body: bool,
    body: BodyDeserializer,
    expected: PhantomData<T>,
}

impl<T: Status> View for Deserializer<T> {
    type V = DeserializerView;

    closed spec fn view(&self) -> DeserializerView {
        DeserializerView {
            header: self.header@,
            body: if self.in_body {
                Some(self.body@)
            } else {
                None
            },
        }
    }
}

impl<T: Status> Deserializer<T> {
    /// A parser that has seen nothing yet.
    pub fn new() -> (r: Deserializer<T>)
        ensures
            r@.header == Seq::<u8>::empty(),
            r@.body is None,
    {
        Deserializer {
            header: Vec::new(),
            in_body: false,
            body: BodyDeserializer {
                remaining_bytes: 0,
                id: ServoID(0),
                crc_low: None,
                crc_calc: crc::Crc::new(),
                bit_stuffer: bit_stuffer::BitStuffer::new(),
                alert: false,
                processing_error: None,
                parameters: Vec::new(),
            },
            expected: PhantomData,
        }
    }

    /// Parse a complete 9-byte header at once, handing back the body-phase
    /// parser.
    pub fn deserialize_header(self, data: &[u8]) -> (r: Result<BodyDeserializer, FormatError>)
        requires
            data@.len() == 9,
        ensures
            match header_parse(data@) {
                Ok(bv) => r matches Ok(b) && b@ == bv,
                Err(e) => r == Err::<BodyDeserializer, FormatError>(e),
            },
    {
        parse_header_bytes(data)
    }

    /// Consume a chunk of packet bytes, of any size.
    pub fn deserialize(&mut self, data: &[u8]) -> (r: Result<DeserializationStatus, FormatError>)
        ensures
            final(self)@ == deser_fold(old(self)@, data@).0,
            match deser_fold(old(self)@, data@).1 {
                None => r == Ok::<DeserializationStatus, FormatError>(
                    if view_finished(deser_fold(old(self)@, data@).0) {
                        DeserializationStatus::Finished
                    } else {
                        DeserializationStatus::Incomplete
                    },
                ),
                Some(e) => r == Err::<DeserializationStatus, FormatError>(e),
            },
    {
        let mut i: usize = 0;
        while i < data.len()
            invariant
                i <= data@.len(),
                deser_fold(old(self)@, data@.take(i as int)) == (self@, None::<FormatError>),
            decreases data@.len() - i,
        {
            let b = data[i];
            proof {
                assert(data@.take(i as int + 1) =~= data@.take(i as int) + seq![b]);
                lemma_deser_fold_append(old(self)@, data@.take(i as int), seq![b]);
                reveal_with_fuel(deser_fold, 2);
                assert(seq![b].drop_first() =~= Seq::<u8>::empty());
            }
            let ghost header_before = self.header@;
            let outcome: Result<(), FormatError> = if self.in_body {
                self.body.step(b)
            } else {
                self.header.push(b);
                if self.header.len() < 9 {
                    Ok(())
                } else {
                    match parse_header_bytes(self.header.as_slice()) {
                        Ok(bd) => {
                            self.body = bd;
                            self.in_body = true;
                            Ok(())
                        },
                        Err(e) => {
                            self.header.pop();
                            proof {
                                assert(self.header@ =~= header_before);
                            }
                            Err(e)
                        },
                    }
                }
            };
            match outcome {
                Ok(()) => {},
                Err(e) => {
                    proof {
                        lemma_deser_fold_append(
                            old(self)@,
                            data@.take(i as int),
                            data@.skip(i as int),
                        );
                        assert(data@ =~= data@.take(i as int) + data@.skip(i as int));
                        assert(data@.skip(i as int)[0] == b);
                    }
                    return Err(e);
                },
            }
            i = i + 1;
        }
        proof {
            assert(data@.take(data@.len() as int) =~= data@);
        }
        if self.in_body && self.body.remaining_bytes() == 0 {
            Ok(DeserializationStatus::Finished)
        } else {
            Ok(DeserializationStatus::Incomplete)
        }
    }

    /// A complete packet was consumed.
    pub fn is_finished(&self) -> (r: bool)
        ensures
            r == view_finished(self@),
    {
        self.in_body && self.body.remaining_bytes() == 0
    }

    /// Produce the typed status, as [`BodyDeserializer::build`] does.
    pub fn build(self) -> (r: Result<T, Error>)
        ensures
            r == spec_build::<T>(self@),
    {
        if !self.in_body {
            return Err(Error::Unfinished);
        }
        self.body.build::<T>()
    }
}

/// A parser that has seen nothing yet, as specifications see it.
pub open spec fn initial_view() -> DeserializerView {
    DeserializerView { header: Seq::<u8>::empty(), body: None }
}

/// Every accepted body byte, stuffed or not, brings the packet one byte
/// closer to its announced length.
pub proof fn lemma_body_fold_remaining(s: BodyView, data: Seq<u8>)
    ensures
        body_fold(s, data).1 is None ==> body_fold(s, data).0.remaining == s.remaining
            - data.len(),
    decreases data.len(),
{
    if data.len() != 0 {
        match body_step(s, data[0]) {
            Ok(s2) => {
                lemma_body_fold_remaining(s2, data.drop_first());
            },
            Err(e) => {},
        }
    }
}

/// Write a request packet for `instruction` to the interface.
pub fn write_instruction<I: crate::Interface, T: Instruction>(
    interface: &mut I,
    instruction: T,
) -> Result<(), crate::CommunicationError> {
    let packet = serialize_instruction(&instruction);
    interface.write(packet.as_slice())
}

/// Read one status packet of type `T` from the interface: the fixed
/// 9-byte header first, then body chunks until the announced length is
/// consumed.  Any value handed back is the parse of some byte stream a
/// fresh parser accepts whole.
pub fn read_status<I: crate::Interface, T: Status>(interface: &mut I) -> (r: Result<
    (T, ServoID),
    Error,
>)
    ensures
        r matches Ok(p) ==> exists|bytes: Seq<u8>|
            #![trigger deser_fold(initial_view(), bytes)]
            {
                let fr = deser_fold(initial_view(), bytes);
                &&& fr.1 is None
                &&& view_finished(fr.0)
                &&& Ok::<T, Error>(p.0) == spec_build::<T>(fr.0)
                &&& fr.0.body matches Some(bv) && bv.id == p.1.0
            },
{
    let header = match interface.read(9) {
        Ok(v) => v,
        Err(e) => {
            return Err(Error::Communication(e));
        },
    };
    let mut body = match Deserializer::<T>::new().deserialize_header(header.as_slice()) {
        Ok(b) => b,
        Err(e) => {
            return Err(Error::Format(e));
        },
    };
    let ghost bv0 = body@;
    let ghost consumed: Seq<u8> = Seq::<u8>::empty();
    while !body.is_finished()
        invariant
            body_fold(bv0, consumed) == (body@, None::<FormatError>),
            header_parse(header@) == Ok::<BodyView, FormatError>(bv0),
            header@.len() == 9,
        decreases body@.remaining,
    {
        let ghost before = body@;
        let remaining = body.remaining_bytes();
        let n: usize = if remaining > 10 {
            10
        } else {
            remaining as usize
        };
        let chunk = match interface.read(n) {
            Ok(v) => v,
            Err(e) => {
                return Err(Error::Communication(e));
            },
        };
        match body.deserialize(chunk.as_slice()) {
            Ok(_) => {},
            Err(e) => {
                return Err(Error::Format(e));
            },
        }
        proof {
            lemma_body_fold_remaining(before, chunk@);
            lemma_body_fold_append(bv0, consumed, chunk@);
            consumed = consumed + chunk@;
        }
    }
    let ghost final_body = body@;
    let id = body.id();
    match body.build::<T>() {
        Ok(t) => {
            proof {
                let bytes = header@ + consumed;
                lemma_fold_header_phase(Seq::<u8>::empty(), header@);
                assert(Seq::<u8>::empty() + header@ =~= header@);
                lemma_deser_fold_append(initial_view(), header@, consumed);
                lemma_deser_fold_body(header@, bv0, consumed);
                let fr = deser_fold(initial_view(), bytes);
                assert(fr.1 is None && view_finished(fr.0) && Ok::<T, Error>(t) == spec_build::<
                    T,
                >(fr.0) && (fr.0.body matches Some(bv) && bv.id == id.0));
            }
            Ok((t, id))
        },
        Err(e) => Err(e),
    }
}

/// What discovery asserts of every servo it reports: its baud rate is one
/// of the probed rates, and its model number, firmware version and
/// identifier come from a pong that a fresh parser accepted whole.
pub open spec fn discovered_servo_ok(info: ServoInfo) -> bool {
    &&& crate::BaudRate::spec_variants().contains(info.baud_rate)
    &&& exists|bytes: Seq<u8>|
        #![trigger deser_fold(initial_view(), bytes)]
        {
            let fr = deser_fold(initial_view(), bytes);
            &&& fr.1 is None
            &&& view_finished(fr.0)
            &&& Ok::<instruction::Pong, Error>(
                instruction::Pong {
                    model_number: info.model_number,
                    fw_version: info.fw_version,
                },
            ) == spec_build::<instruction::Pong>(fr.0)
            &&& fr.0.body matches Some(bv) && bv.id == info.id.0
        }
}

/// Discover every protocol 2 servo that answers a broadcast ping, probing
/// each baud rate in turn.  A baud the interface does not support is
/// skipped; a read timeout means no further servo will answer at this
/// rate; any other error likewise ends the rate.  At most 253 devices can
/// share the bus, which bounds the collection at each rate.  Every
/// reported servo was heard from: its entry restates a parsed pong.
#[verifier::loop_isolation(false)]
pub fn enumerate<I: crate::Interface>(interface: &mut I) -> (r: Result<
    Vec<ServoInfo>,
    crate::CommunicationError,
>)
    ensures
        r matches Ok(v) ==> forall|i: int|
            0 <= i < v@.len() ==> discovered_servo_ok(#[trigger] v@[i]),
{
    let mut servos: Vec<ServoInfo> = Vec::new();
    let rates = crate::BaudRate::variants();
    let mut bi: usize = 0;
    while bi < rates.len()
        invariant
            forall|i: int| 0 <= i < servos@.len() ==> discovered_servo_ok(#[trigger] servos@[i]),
        decreases rates@.len() - bi,
    {
        let baud = rates[bi];
        proof {
            assert(crate::BaudRate::spec_variants().contains(baud)) by {
                assert(crate::BaudRate::spec_variants()[bi as int] == baud);
            }
        }
        bi = bi + 1;
        match interface.set_baud_rate(baud) {
            Ok(()) => {},
            Err(_) => {
                continue ;
            },
        }
        interface.flush();
        let ping = instruction::Ping::new(PacketID::Broadcast);
        match write_instruction(interface, ping) {
            Ok(()) => {},
            Err(e) => {
                return Err(e);
            },
        }
        let mut answered: usize = 0;
        while answered < 253
            invariant
                forall|i: int|
                    0 <= i < servos@.len() ==> discovered_servo_ok(#[trigger] servos@[i]),
            decreases 253 - answered,
        {
            match read_status::<I, instruction::Pong>(interface) {
                Ok((pong, id)) => {
                    let info = ServoInfo {
                        baud_rate: baud,
                        model_number: pong.model_number,
                        fw_version: pong.fw_version,
                        id,
                    };
                    proof {
                        assert(instruction::Pong {
                            model_number: pong.model_number,
                            fw_version: pong.fw_version,
                        } == pong);
                        assert(discovered_servo_ok(info));
                    }
                    servos.push(info);
                    answered = answered + 1;
                },
                Err(_) => {
                    break ;
                },
            }
        }
    }
    Ok(servos)
}

/// On payload states the tracker follows the match count.
proof fn lemma_step_count(k: int, b: u8)
    requires
        0 <= k <= 2,
    ensures
        bit_stuffer::spec_step(bit_stuffer::state_of_count(k), b) == Ok::<
            bit_stuffer::BitStufferState,
            bit_stuffer::BitStufferError,
        >(bit_stuffer::state_of_count(bit_stuffer::count_step(k, b))),
        bit_stuffer::match_count(bit_stuffer::state_of_count(bit_stuffer::count_step(k, b)))
            == bit_stuffer::count_step(k, b),
{
}

/// Buffering the header: feeding the bytes that complete the 9-byte header
/// parses it, all at once or byte by byte.
proof fn lemma_fold_header_phase(hdr: Seq<u8>, more: Seq<u8>)
    requires
        hdr.len() + more.len() == 9,
        more.len() >= 1,
    ensures
        match header_parse(hdr + more) {
            Ok(bv) => deser_fold(DeserializerView { header: hdr, body: None }, more) == (
                DeserializerView { header: hdr + more, body: Some(bv) },
                None::<FormatError>,
            ),
            Err(e) => deser_fold(DeserializerView { header: hdr, body: None }, more) == (
                DeserializerView { header: hdr + more.drop_last(), body: None },
                Some(e),
            ),
        },
    decreases more.len(),
{
    reveal_with_fuel(deser_fold, 2);
    let s = DeserializerView { header: hdr, body: None };
    let b = more[0];
    let h = hdr.push(b);
    if more.len() == 1 {
        assert(hdr + more =~= h);
        assert(more.drop_first() =~= Seq::<u8>::empty());
        assert(hdr + more.drop_last() =~= hdr);
        match header_parse(h) {
            Ok(bv) => {
                assert(deser_step(s, b) == Ok::<DeserializerView, FormatError>(
                    DeserializerView { header: h, body: Some(bv) },
                ));
            },
            Err(e) => {},
        }
    } else {
        assert(h.len() < 9);
        lemma_fold_header_phase(h, more.drop_first());
        assert(h + more.drop_first() =~= hdr + more);
        assert(h + more.drop_first().drop_last() =~= hdr + more.drop_last());
    }
}

/// With the header done, the whole-packet parser is the body parser.
proof fn lemma_deser_fold_body(h: Seq<u8>, bv: BodyView, data: Seq<u8>)
    ensures
        deser_fold(DeserializerView { header: h, body: Some(bv) }, data) == (
            DeserializerView { header: h, body: Some(body_fold(bv, data).0) },
            body_fold(bv, data).1,
        ),
    decreases data.len(),
{
    if data.len() != 0 {
        match body_step(bv, data[0]) {
            Ok(b2) => {
                lemma_deser_fold_body(h, b2, data.drop_first());
            },
            Err(e) => {},
        }
    }
}

/// De-stuffing inverts stuffing: the body parser, fed the stuffed form of
/// any parameter bytes, stores exactly those bytes, counts every stuffed
/// byte into the CRC and the length, and leaves the two CRC bytes owed.
proof fn lemma_fold_destuff(bv: BodyView, k: int, p: Seq<u8>)
    requires
        0 <= k <= 2,
        bv.stuffer == bit_stuffer::state_of_count(k),
        bv.remaining == bit_stuffer::stuff_from(k, p).len() + 2,
        bv.params.len() + p.len() <= 6,
    ensures
        body_fold(bv, bit_stuffer::stuff_from(k, p)) == (
            BodyView {
                remaining: 2,
                crc: crc::crc_fold(bv.crc, bit_stuffer::stuff_from(k, p)),
                stuffer: bit_stuffer::state_of_count(bit_stuffer::count_after(k, p)),
                params: bv.params + p,
                ..bv
            },
            None::<FormatError>,
        ),
    decreases p.len(),
{
    let stuffed = bit_stuffer::stuff_from(k, p);
    if p.len() == 0 {
        assert(bv.params + p =~= bv.params);
        assert(body_fold(bv, stuffed) == (bv, None::<FormatError>));
        assert(BodyView {
            remaining: 2,
            crc: crc::crc_fold(bv.crc, stuffed),
            stuffer: bit_stuffer::state_of_count(bit_stuffer::count_after(k, p)),
            params: bv.params + p,
            ..bv
        } == bv);
    } else {
        let b = p[0];
        let k2 = bit_stuffer::count_step(k, b);
        let rest = p.drop_first();
        lemma_step_count(k, b);
        if k2 == 3 {
            // the byte completes the reserved sequence: a stuff byte follows
            let tail = bit_stuffer::stuff_from(0, rest);
            assert(stuffed =~= seq![b, 0xfdu8] + tail);
            let bv1 = BodyView {
                remaining: bv.remaining - 1,
                stuffer: bit_stuffer::BitStufferState::B3,
                crc: crc::crc_add_byte(bv.crc, b),
                params: bv.params.push(b),
                ..bv
            };
            assert(body_step(bv, b) == Ok::<BodyView, FormatError>(bv1));
            let bv2 = BodyView {
                remaining: bv1.remaining - 1,
                stuffer: bit_stuffer::BitStufferState::B0,
                crc: crc::crc_add_byte(bv1.crc, 0xfd),
                ..bv1
            };
            assert(body_step(bv1, 0xfd) == Ok::<BodyView, FormatError>(bv2));
            assert(bv2.remaining == tail.len() + 2);
            lemma_fold_destuff(bv2, 0, rest);
            assert(stuffed[0] == b);
            assert(stuffed.drop_first() =~= seq![0xfdu8] + tail);
            assert((seq![0xfdu8] + tail)[0] == 0xfd);
            assert((seq![0xfdu8] + tail).drop_first() =~= tail);
            assert(body_fold(bv, stuffed) == body_fold(bv1, seq![0xfdu8] + tail));
            assert(body_fold(bv1, seq![0xfdu8] + tail) == body_fold(bv2, tail));
            assert(bv2.params + rest =~= bv.params + p);
            // the CRC runs over the stuff byte too
            crc::lemma_crc_fold_append(bv.crc, seq![b, 0xfdu8], tail);
            assert(crc::crc_fold(bv.crc, seq![b, 0xfdu8]) == bv2.crc) by {
                reveal_with_fuel(crc::crc_fold, 3);
                assert(seq![b, 0xfdu8].drop_first() =~= seq![0xfdu8]);
                assert(seq![0xfdu8].drop_first() =~= Seq::<u8>::empty());
            }
        } else {
            let tail = bit_stuffer::stuff_from(k2, rest);
            assert(stuffed =~= seq![b] + tail);
            let bv1 = BodyView {
                remaining: bv.remaining - 1,
                stuffer: bit_stuffer::state_of_count(k2),
                crc: crc::crc_add_byte(bv.crc, b),
                params: bv.params.push(b),
                ..bv
            };
            assert(body_step(bv, b) == Ok::<BodyView, FormatError>(bv1));
            assert(bv1.remaining == tail.len() + 2);
            lemma_fold_destuff(bv1, k2, rest);
            assert(stuffed[0] == b);
            assert(stuffed.drop_first() =~= tail);
            assert(body_fold(bv, stuffed) == body_fold(bv1, tail));
            assert(bv1.params + rest =~= bv.params + p);
            crc::lemma_crc_fold_append(bv.crc, seq![b], tail);
            assert(crc::crc_fold(bv.crc, seq![b]) == bv1.crc) by {
                reveal_with_fuel(crc::crc_fold, 2);
                assert(seq![b].drop_first() =~= Seq::<u8>::empty());
            }
        }
    }
}

/// Parsing inverts encoding: a status packet built for servo `id` with a
/// decodable error byte and up to 6 parameter bytes, fed to a fresh
/// parser, is accepted whole — stuffing undone, CRC matched — and yields
/// exactly `id`, the alert flag, the decoded error and those parameters.
#[verifier::rlimit(100)]
#[verifier::spinoff_prover]
pub proof fn lemma_p2_status_round_trip(id: u8, err: u8, params: Seq<u8>)
    requires
        id <= 252,
        params.len() <= 6,
        ProcessingError::spec_decode(err & 0x7f) is Ok,
    ensures
        ({
            let fr = deser_fold(initial_view(), p2_status(id, err, params));
            &&& fr.1 is None
            &&& view_finished(fr.0)
            &&& fr.0.body matches Some(bv) && bv.id == id && bv.alert == (err & 0x80 != 0)
                && Ok::<Option<ProcessingError>, FormatError>(bv.proc_err)
                == ProcessingError::spec_decode(err & 0x7f) && bv.params
                == params
        }),
{
    let bytes = p2_status(id, err, params);
    let stuffed_tail = bit_stuffer::stuff_from(0, params);
    let region = stuff(seq![0x55u8, err] + params);
    assert(err != 0xff) by {
        assert(err & 0x7f == 0x7f ==> !(ProcessingError::spec_decode(err & 0x7f) is Ok));
        assert(err == 0xff ==> err & 0x7f == 0x7f) by (bit_vector);
    }

    // the instruction and error bytes pass through the stuffer untouched
    assert(region =~= seq![0x55u8, err] + stuffed_tail) by {
        reveal_with_fuel(bit_stuffer::stuff_from, 3);
        let inp = seq![0x55u8, err] + params;
        assert(inp[0] == 0x55 && inp[1] == err);
        assert(inp.drop_first() =~= seq![err] + params);
        assert((seq![err] + params).drop_first() =~= params);
    }
    let length = region.len() + 2;
    assert(length <= 16) by {
        bit_stuffer::lemma_stuff_len(0, params);
    }
    let lo = (length % 256) as u8;
    let hi = ((length / 256) % 256) as u8;
    let head = seq![0xffu8, 0xffu8, 0xfdu8, 0x00u8, id, lo, hi] + region;
    let c = crc_of(head);
    assert(bytes =~= head + seq![(c & 0xff) as u8, ((c >> 8) & 0xff) as u8]);
    let h9 = seq![0xffu8, 0xffu8, 0xfdu8, 0x00u8, id, lo, hi, 0x55u8, err];
    assert(h9 =~= bytes.take(9));

    // the 9 header bytes parse
    assert(bit_stuffer::fold_state(bit_stuffer::BitStufferState::H0, h9) == Ok::<
        bit_stuffer::BitStufferState,
        bit_stuffer::BitStufferError,
    >(bit_stuffer::BitStufferState::B0)) by {
        reveal_with_fuel(bit_stuffer::fold_state, 10);
        assert(h9.drop_first() =~= seq![0xffu8, 0xfdu8, 0x00u8, id, lo, hi, 0x55u8, err]);
        assert(seq![0xffu8, 0xfdu8, 0x00u8, id, lo, hi, 0x55u8, err].drop_first() =~= seq![
            0xfdu8,
            0x00u8,
            id,
            lo,
            hi,
            0x55u8,
            err,
        ]);
        assert(seq![0xfdu8, 0x00u8, id, lo, hi, 0x55u8, err].drop_first() =~= seq![
            0x00u8,
            id,
            lo,
            hi,
            0x55u8,
            err,
        ]);
        assert(seq![0x00u8, id, lo, hi, 0x55u8, err].drop_first() =~= seq![id, lo, hi, 0x55u8, err]);
        assert(seq![id, lo, hi, 0x55u8, err].drop_first() =~= seq![lo, hi, 0x55u8, err]);
        assert(seq![lo, hi, 0x55u8, err].drop_first() =~= seq![hi, 0x55u8, err]);
        assert(seq![hi, 0x55u8, err].drop_first() =~= seq![0x55u8, err]);
        assert(seq![0x55u8, err].drop_first() =~= seq![err]);
        assert(seq![err].drop_first() =~= Seq::<u8>::empty());
        assert(hi == 0);
    }
    assert((h9[5] as int) + 256 * (h9[6] as int) == length);
    let bv0 = BodyView {
        remaining: length - 2,
        id: id,
        crc_low: None,
        crc: crc_of(h9),
        stuffer: bit_stuffer::BitStufferState::B0,
        alert: err & 0x80 != 0,
        proc_err: ProcessingError::spec_decode(err & 0x7f)->Ok_0,
        params: Seq::<u8>::empty(),
    };
    assert(header_parse(h9) == Ok::<BodyView, FormatError>(bv0));
    lemma_fold_header_phase(Seq::<u8>::empty(), h9);
    assert(Seq::<u8>::empty() + h9 =~= h9);

    // the rest of the packet: the stuffed parameters, then the CRC
    let tail = bytes.skip(9);
    assert(tail =~= stuffed_tail + seq![(c & 0xff) as u8, ((c >> 8) & 0xff) as u8]);
    assert(bytes =~= h9 + tail);
    lemma_deser_fold_append(initial_view(), h9, tail);
    assert(deser_fold(initial_view(), h9) == (
        DeserializerView { header: h9, body: Some(bv0) },
        None::<FormatError>,
    ));

    // the parameter region is de-stuffed
    assert(bv0.remaining == stuffed_tail.len() + 2);
    lemma_fold_destuff(bv0, 0, params);
    let bv1 = BodyView {
        remaining: 2,
        crc: crc::crc_fold(bv0.crc, stuffed_tail),
        stuffer: bit_stuffer::state_of_count(bit_stuffer::count_after(0, params)),
        params: Seq::<u8>::empty() + params,
        ..bv0
    };
    assert(body_fold(bv0, stuffed_tail) == (bv1, None::<FormatError>));

    // the received CRC equals the running one
    assert(bv1.crc == c) by {
        crc::lemma_crc_fold_append(0, h9, stuffed_tail);
        assert(h9 + stuffed_tail =~= head);
    }
    let crc_bytes = seq![(c & 0xff) as u8, ((c >> 8) & 0xff) as u8];
    let bv2 = BodyView { remaining: 1, crc_low: Some((c & 0xff) as u8), ..bv1 };
    let bv3 = BodyView { remaining: 0, ..bv2 };
    assert(body_fold(bv1, crc_bytes) == (bv3, None::<FormatError>)) by {
        reveal_with_fuel(body_fold, 3);
        assert(crc_bytes.drop_first() =~= seq![((c >> 8) & 0xff) as u8]);
        assert(seq![((c >> 8) & 0xff) as u8].drop_first() =~= Seq::<u8>::empty());
        assert(body_step(bv1, (c & 0xff) as u8) == Ok::<BodyView, FormatError>(bv2));
        assert((((c & 0xff) as u8) as u16) | (((((c >> 8) & 0xff) as u8) as u16) << 8) == c)
            by (bit_vector);
        assert(body_step(bv2, ((c >> 8) & 0xff) as u8) == Ok::<BodyView, FormatError>(bv3));
    }
    lemma_body_fold_append(bv0, stuffed_tail, crc_bytes);
    assert(stuffed_tail + crc_bytes =~= tail);
    lemma_deser_fold_body(h9, bv0, tail);
    assert(Seq::<u8>::empty() + params =~= params);
}

/// The typed round trip: a status packet carrying exactly the parameter
/// bytes a status type mandates, with no device-reported error, builds to
/// the typed value those bytes decode to.
pub proof fn lemma_p2_typed_round_trip<T: Status>(id: u8, params: Seq<u8>)
    requires
        id <= 252,
        params.len() == T::spec_parameters(),
    ensures
        spec_build::<T>(deser_fold(initial_view(), p2_status(id, 0, params)).0) == Ok::<T, Error>(
            T::spec_from_params(params),
        ),
{
    T::parameters_bound();
    assert(0u8 & 0x7f == 0 && 0u8 & 0x80 == 0) by (bit_vector);
    lemma_p2_status_round_trip(id, 0, params);
    assert(sized_params(params, T::spec_parameters() as int) =~= params);
}

/// The length field of every request counts exactly the bytes from the
/// instruction byte through the high CRC byte, after stuffing.
pub proof fn lemma_p2_length_counts_stuffed_bytes(id: u8, instr: u8, params: Seq<u8>)
    requires
        params.len() <= 6,
    ensures
        ({
            let bytes = p2_request(id, instr, params);
            (bytes[5] as int) + 256 * (bytes[6] as int) == bytes.len() - 7
        }),
{
    bit_stuffer::lemma_stuff_len(0, seq![instr] + params);
}

/// Encoding is a function of the packet's fields alone: equal inputs give
/// the same bytes.
pub proof fn lemma_p2_request_deterministic(
    id1: u8,
    instr1: u8,
    params1: Seq<u8>,
    id2: u8,
    instr2: u8,
    params2: Seq<u8>,
)
    requires
        id1 == id2,
        instr1 == instr2,
        params1 == params2,
    ensures
        p2_request(id1, instr1, params1) == p2_request(id2, instr2, params2),
{
}

} // verus!
