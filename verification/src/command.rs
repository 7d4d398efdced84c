//! The innermost layer: a single w1 command record.
//!
//! Wire layout, all integers little-endian:
//! opcode (1 byte), reserved (1 byte, zero), payload length (2 bytes),
//! then exactly that many payload bytes.

use vstd::prelude::*;
use vstd::bytes::*;
use vstd::slice::*;

use crate::Deserializable;
use crate::InvalidValue;
use crate::Serializable;
use crate::SerializeError;

verus! {

pub const W1_CMD_READ: u8 = 0;

pub const W1_CMD_WRITE: u8 = 1;

pub const W1_CMD_SEARCH: u8 = 2;

pub const W1_CMD_ALARM_SEARCH: u8 = 3;

pub const W1_CMD_TOUCH: u8 = 4;

pub const W1_CMD_RESET: u8 = 5;

pub const W1_CMD_SLAVE_ADD: u8 = 6;

pub const W1_CMD_SLAVE_REMOVE: u8 = 7;

pub const W1_CMD_LIST_SLAVES: u8 = 8;

/// One past the highest opcode the protocol defines.
pub const W1_CMD_MAX: u8 = 9;

/// The width of the fixed command header.
pub const CMD_HEADER_LEN: usize = 4;

/// The opcode of a command record.
#[derive(Debug, Clone, Copy, PartialEq, Eq, Structural)]
pub enum W1CommandType {
    Read,
    Write,
    Search,
    AlarmSearch,
    Touch,
    Reset,
    SlaveAdd,
    SlaveRemove,
    ListSlaves,
}

impl W1CommandType {
    /// The opcode byte this command type is written as.
    pub open spec fn spec_code(self) -> u8 {
        match self {
            W1CommandType::Read => W1_CMD_READ,
            W1CommandType::Write => W1_CMD_WRITE,
            W1CommandType::Search => W1_CMD_SEARCH,
            W1CommandType::AlarmSearch => W1_CMD_ALARM_SEARCH,
            W1CommandType::Touch => W1_CMD_TOUCH,
            W1CommandType::Reset => W1_CMD_RESET,
            W1CommandType::SlaveAdd => W1_CMD_SLAVE_ADD,
            W1CommandType::SlaveRemove => W1_CMD_SLAVE_REMOVE,
            W1CommandType::ListSlaves => W1_CMD_LIST_SLAVES,
        }
    }

    /// Map an opcode byte to its command type; bytes past the defined range
    /// are rejected.
    pub fn try_from(value: u8) -> (r: Result<W1CommandType, InvalidValue>)
        ensures
            match r {
                Ok(t) => t.spec_code() == value,
                Err(e) => value >= W1_CMD_MAX && e == InvalidValue(value),
            },
            value < W1_CMD_MAX ==> r is Ok,
    {
        let cmd = match value {
            W1_CMD_READ => W1CommandType::Read,
            W1_CMD_WRITE => W1CommandType::Write,
            W1_CMD_SEARCH => W1CommandType::Search,
            W1_CMD_ALARM_SEARCH => W1CommandType::AlarmSearch,
            W1_CMD_TOUCH => W1CommandType::Touch,
            W1_CMD_RESET => W1CommandType::Reset,
            W1_CMD_SLAVE_ADD => W1CommandType::SlaveAdd,
            W1_CMD_SLAVE_REMOVE => W1CommandType::SlaveRemove,
            W1_CMD_LIST_SLAVES => W1CommandType::ListSlaves,
            _ => {
                return Err(InvalidValue(value));
            },
        };
        Ok(cmd)
    }

    /// The opcode byte this command type is written as.
    pub fn code(self) -> (r: u8)
        ensures
            r == self.spec_code(),
    {
        match self {
            W1CommandType::Read => W1_CMD_READ,
            W1CommandType::Write => W1_CMD_WRITE,
            W1CommandType::Search => W1_CMD_SEARCH,
            W1CommandType::AlarmSearch => W1_CMD_ALARM_SEARCH,
            W1CommandType::Touch => W1_CMD_TOUCH,
            W1CommandType::Reset => W1_CMD_RESET,
            W1CommandType::SlaveAdd => W1_CMD_SLAVE_ADD,
            W1CommandType::SlaveRemove => W1_CMD_SLAVE_REMOVE,
            W1CommandType::ListSlaves => W1_CMD_LIST_SLAVES,
        }
    }
}

/// The fixed four-byte command header as it stands on the wire.
#[derive(Debug, Clone, Copy, PartialEq, Eq, Structural)]
pub struct W1NetlinkCmd {
    /// Command opcode.
    pub cmd: u8,
    /// Reserved; written as zero.
    pub res: u8,
    /// Byte length of the payload that follows the header.
    pub len: u16,
}

impl W1NetlinkCmd {
    pub open spec fn spec_bytes(self) -> Seq<u8> {
        seq![self.cmd, self.res] + spec_u16_to_le_bytes(self.len)
    }

    /// Read the fixed header fields from the front of `payload`.
    pub fn parse(payload: &[u8]) -> (r: W1NetlinkCmd)
        requires
            payload@.len() >= CMD_HEADER_LEN,
        ensures
            r.cmd == payload@[0],
            r.res == payload@[1],
            r.len == spec_u16_from_le_bytes(payload@.subrange(2, 4)),
    {
        let cmd = *slice_index_get(payload, 0);
        let res = *slice_index_get(payload, 1);
        let len = u16_from_le_bytes(slice_subrange(payload, 2, 4));
        W1NetlinkCmd { cmd, res, len }
    }

    /// Append the fixed header to `buffer`.
    pub fn write(&self, buffer: &mut Vec<u8>)
        ensures
            final(buffer)@ == old(buffer)@ + self.spec_bytes(),
    {
        buffer.push(self.cmd);
        buffer.push(self.res);
        let mut len_bytes = u16_to_le_bytes(self.len);
        buffer.append(&mut len_bytes);
        proof {
            assert(buffer@ =~= old(buffer)@ + self.spec_bytes());
        }
    }
}

/// The ghost model of one command record.
pub enum SpecCommand {
    Write(Seq<u8>),
    Read(Option<Seq<u8>>),
    Search,
    AlarmSearch,
    Touch,
    Reset,
    ListSlaves,
}

/// One decoded command record.
///
/// `Read` carries no payload on a request and the device data on a response;
/// `Write` always carries the data to write. The protocol leaves the payload
/// shape of `ListSlaves` (and of slave add/remove commands) undefined, so
/// that variant decodes and encodes to [`DeserializeError::NotImplemented`]
/// and [`SerializeError::NotImplemented`] rather than to a guessed format.
#[derive(Debug, Clone, PartialEq, Eq)]
pub enum W1NetlinkCommand {
    Write(Vec<u8>),
    Read(Option<Vec<u8>>),
    Search,
    AlarmSearch,
    Touch,
    Reset,
    ListSlaves,
}

impl DeepView for W1NetlinkCommand {
    type V = SpecCommand;

    open spec fn deep_view(&self) -> SpecCommand {
        match self {
            W1NetlinkCommand::Write(p) => SpecCommand::Write(p.deep_view()),
            W1NetlinkCommand::Read(p) => SpecCommand::Read(p.deep_view()),
            W1NetlinkCommand::Search => SpecCommand::Search,
            W1NetlinkCommand::AlarmSearch => SpecCommand::AlarmSearch,
            W1NetlinkCommand::Touch => SpecCommand::Touch,
            W1NetlinkCommand::Reset => SpecCommand::Reset,
            W1NetlinkCommand::ListSlaves => SpecCommand::ListSlaves,
        }
    }
}

/// The opcode a command is written with.
pub open spec fn spec_cmd_type(c: SpecCommand) -> W1CommandType {
    match c {
        SpecCommand::Write(_) => W1CommandType::Write,
        SpecCommand::Read(_) => W1CommandType::Read,
        SpecCommand::Search => W1CommandType::Search,
        SpecCommand::AlarmSearch => W1CommandType::AlarmSearch,
        SpecCommand::Touch => W1CommandType::Touch,
        SpecCommand::Reset => W1CommandType::Reset,
        SpecCommand::ListSlaves => W1CommandType::ListSlaves,
    }
}

/// The payload bytes a command carries after its header.
pub open spec fn spec_cmd_payload(c: SpecCommand) -> Seq<u8> {
    match c {
        SpecCommand::Write(p) => p,
        SpecCommand::Read(p) => match p {
            Some(q) => q,
            None => Seq::empty(),
        },
        _ => Seq::empty(),
    }
}

/// The payload fits the 16-bit length field of the header.
pub open spec fn spec_cmd_wf(c: SpecCommand) -> bool {
    spec_cmd_payload(c).len() <= u16::MAX
}

/// The command's variant has a defined wire format.
pub open spec fn spec_cmd_serializable(c: SpecCommand) -> bool {
    !(c is ListSlaves)
}

/// A command whose encoding decodes back to the same value. This excludes
/// `Read` of a present but empty payload: its length field is zero, so it
/// decodes as a payload-less request.
pub open spec fn spec_cmd_round_trippable(c: SpecCommand) -> bool {
    &&& spec_cmd_wf(c)
    &&& spec_cmd_serializable(c)
    &&& (c matches SpecCommand::Read(Some(p)) ==> p.len() > 0)
}

/// The wire encoding of a command: opcode, reserved zero byte, payload
/// length, payload.
pub open spec fn spec_serialize_cmd(c: SpecCommand) -> Seq<u8> {
    seq![spec_cmd_type(c).spec_code(), 0u8]
        + spec_u16_to_le_bytes(spec_cmd_payload(c).len() as u16)
        + spec_cmd_payload(c)
}

/// Failure of decoding a command record.
#[derive(Debug, Clone, Copy, PartialEq, Eq, Structural)]
pub enum DeserializeError {
    /// Fewer bytes available than the fixed header requires.
    InvalidLength,
    /// The opcode byte does not name a known command.
    InvalidType(InvalidValue),
    /// The declared payload length exceeds the bytes available.
    InvalidPayloadLength,
    /// The opcode is defined but its payload shape is not.
    NotImplemented,
}

/// Ghost-level decoding of one command record from the front of `b`.
///
/// A `Read` header with a positive length is a response and consumes exactly
/// that many payload bytes; with length zero it is a request. `Write`
/// consumes its declared length unconditionally. The fixed no-payload
/// opcodes consume no body bytes regardless of the length field.
pub open spec fn spec_deserialize_cmd(b: Seq<u8>) -> Result<(SpecCommand, int), DeserializeError> {
    if b.len() < CMD_HEADER_LEN {
        Err(DeserializeError::InvalidLength)
    } else {
        let code = b[0];
        let len = spec_u16_from_le_bytes(b.subrange(2, 4)) as int;
        if code == W1_CMD_READ {
            if len == 0 {
                Ok((SpecCommand::Read(None), CMD_HEADER_LEN as int))
            } else if CMD_HEADER_LEN + len <= b.len() {
                Ok((SpecCommand::Read(Some(b.subrange(4, 4 + len))), 4 + len))
            } else {
                Err(DeserializeError::InvalidPayloadLength)
            }
        } else if code == W1_CMD_WRITE {
            if CMD_HEADER_LEN + len <= b.len() {
                Ok((SpecCommand::Write(b.subrange(4, 4 + len)), 4 + len))
            } else {
                Err(DeserializeError::InvalidPayloadLength)
            }
        } else if code == W1_CMD_SEARCH {
            Ok((SpecCommand::Search, CMD_HEADER_LEN as int))
        } else if code == W1_CMD_ALARM_SEARCH {
            Ok((SpecCommand::AlarmSearch, CMD_HEADER_LEN as int))
        } else if code == W1_CMD_TOUCH {
            Ok((SpecCommand::Touch, CMD_HEADER_LEN as int))
        } else if code == W1_CMD_RESET {
            Ok((SpecCommand::Reset, CMD_HEADER_LEN as int))
        } else if code == W1_CMD_SLAVE_ADD || code == W1_CMD_SLAVE_REMOVE || code
            == W1_CMD_LIST_SLAVES {
            Err(DeserializeError::NotImplemented)
        } else {
            Err(DeserializeError::InvalidType(InvalidValue(code)))
        }
    }
}

impl W1NetlinkCommand {
    /// Whether the payload fits the 16-bit length field of the header; the
    /// encoding functions require it.
    pub fn check_wf(&self) -> (r: bool)
        ensures
            r == spec_cmd_wf(self.deep_view()),
    {
        match self {
            W1NetlinkCommand::Write(p) => p.len() <= 0xFFFF,
            W1NetlinkCommand::Read(p) => match p {
                Some(q) => q.len() <= 0xFFFF,
                None => true,
            },
            _ => true,
        }
    }

    /// The opcode this command is written with.
    pub fn cmd_type(&self) -> (r: W1CommandType)
        ensures
            r == spec_cmd_type(self.deep_view()),
    {
        match self {
            W1NetlinkCommand::Write(_) => W1CommandType::Write,
            W1NetlinkCommand::Read(_) => W1CommandType::Read,
            W1NetlinkCommand::Search => W1CommandType::Search,
            W1NetlinkCommand::AlarmSearch => W1CommandType::AlarmSearch,
            W1NetlinkCommand::Touch => W1CommandType::Touch,
            W1NetlinkCommand::Reset => W1CommandType::Reset,
            W1NetlinkCommand::ListSlaves => W1CommandType::ListSlaves,
        }
    }
}

impl Serializable for W1NetlinkCommand {
    open spec fn wf(&self) -> bool {
        spec_cmd_wf(self.deep_view())
    }

    open spec fn serializable(&self) -> bool {
        spec_cmd_serializable(self.deep_view())
    }

    open spec fn spec_bytes(&self) -> Seq<u8> {
        spec_serialize_cmd(self.deep_view())
    }

    fn buffer_len(&self) -> (r: Result<usize, SerializeError>) {
        proof {
            lemma_auto_spec_u16_to_from_le_bytes();
        }
        match self {
            W1NetlinkCommand::Write(p) => Ok(CMD_HEADER_LEN + p.len()),
            W1NetlinkCommand::Read(p) => match p {
                Some(q) => Ok(CMD_HEADER_LEN + q.len()),
                None => Ok(CMD_HEADER_LEN),
            },
            W1NetlinkCommand::ListSlaves => Err(SerializeError::NotImplemented),
            _ => Ok(CMD_HEADER_LEN),
        }
    }

    fn serialize(&self, buffer: &mut Vec<u8>) -> (r: Result<(), SerializeError>) {
        proof {
            lemma_auto_spec_u16_to_from_le_bytes();
        }
        if let W1CommandType::ListSlaves = self.cmd_type() {
            return Err(SerializeError::NotImplemented);
        }
        let payload_len: usize = match self {
            W1NetlinkCommand::Write(p) => p.len(),
            W1NetlinkCommand::Read(p) => match p {
                Some(q) => q.len(),
                None => 0,
            },
            _ => 0,
        };
        let header = W1NetlinkCmd { cmd: self.cmd_type().code(), res: 0, len: payload_len as u16 };
        header.write(buffer);
        match self {
            W1NetlinkCommand::Write(p) => buffer.extend_from_slice(p.as_slice()),
            W1NetlinkCommand::Read(p) => match p {
                Some(q) => buffer.extend_from_slice(q.as_slice()),
                None => (),
            },
            _ => (),
        }
        proof {
            assert(buffer@ =~= old(buffer)@ + self.spec_bytes());
        }
        Ok(())
    }
}

impl Deserializable for W1NetlinkCommand {
    type Error = DeserializeError;

    open spec fn spec_deserialize(payload: Seq<u8>) -> Result<(SpecCommand, int), DeserializeError> {
        spec_deserialize_cmd(payload)
    }

    proof fn lemma_deserialize_progress(payload: Seq<u8>) {
    }

    fn deserialize(payload: &[u8]) -> (r: Result<(Self, usize), DeserializeError>) {
        if payload.len() < CMD_HEADER_LEN {
            return Err(DeserializeError::InvalidLength);
        }
        let header = W1NetlinkCmd::parse(payload);
        let len = header.len as usize;
        let cmd_type = match W1CommandType::try_from(header.cmd) {
            Ok(t) => t,
            Err(e) => {
                return Err(DeserializeError::InvalidType(e));
            },
        };
        match cmd_type {
            W1CommandType::Read => {
                if len == 0 {
                    Ok((W1NetlinkCommand::Read(None), CMD_HEADER_LEN))
                } else if len <= payload.len() - CMD_HEADER_LEN {
                    let pl = slice_to_vec(
                        slice_subrange(payload, CMD_HEADER_LEN, CMD_HEADER_LEN + len),
                    );
                    proof {
                        assert(pl.deep_view() =~= payload@.subrange(4, 4 + len as int));
                    }
                    Ok((W1NetlinkCommand::Read(Some(pl)), CMD_HEADER_LEN + len))
                } else {
                    Err(DeserializeError::InvalidPayloadLength)
                }
            },
            W1CommandType::Write => {
                if len <= payload.len() - CMD_HEADER_LEN {
                    let pl = slice_to_vec(
                        slice_subrange(payload, CMD_HEADER_LEN, CMD_HEADER_LEN + len),
                    );
                    proof {
                        assert(pl.deep_view() =~= payload@.subrange(4, 4 + len as int));
                    }
                    Ok((W1NetlinkCommand::Write(pl), CMD_HEADER_LEN + len))
                } else {
                    Err(DeserializeError::InvalidPayloadLength)
                }
            },
            W1CommandType::Search => Ok((W1NetlinkCommand::Search, CMD_HEADER_LEN)),
            W1CommandType::AlarmSearch => Ok((W1NetlinkCommand::AlarmSearch, CMD_HEADER_LEN)),
            W1CommandType::Touch => Ok((W1NetlinkCommand::Touch, CMD_HEADER_LEN)),
            W1CommandType::Reset => Ok((W1NetlinkCommand::Reset, CMD_HEADER_LEN)),
            W1CommandType::SlaveAdd => Err(DeserializeError::NotImplemented),
            W1CommandType::SlaveRemove => Err(DeserializeError::NotImplemented),
            W1CommandType::ListSlaves => Err(DeserializeError::NotImplemented),
        }
    }
}

/// Decoding the encoding of a command from the front of any buffer yields
/// the command back and consumes exactly its encoded length.
pub proof fn lemma_cmd_parse_prefix(c: SpecCommand, tail: Seq<u8>)
    requires
        spec_cmd_round_trippable(c),
    ensures
        spec_deserialize_cmd(spec_serialize_cmd(c) + tail) == Ok::<
            (SpecCommand, int),
            DeserializeError,
        >((c, spec_serialize_cmd(c).len() as int)),
{
    lemma_auto_spec_u16_to_from_le_bytes();
    let bytes = spec_serialize_cmd(c);
    let b = bytes + tail;
    let len = spec_cmd_payload(c).len() as int;
    assert(b.subrange(2, 4) =~= spec_u16_to_le_bytes(spec_cmd_payload(c).len() as u16));
    assert(spec_u16_from_le_bytes(b.subrange(2, 4)) as int == len);
    match c {
        SpecCommand::Write(p) => {
            assert(b.subrange(4, 4 + len) =~= p);
        },
        SpecCommand::Read(p) => {
            if let Some(q) = p {
                assert(b.subrange(4, 4 + len) =~= q);
            }
        },
        _ => {},
    }
}

/// Round-trip at the command layer: decoding an encoded command yields the
/// command back, consuming the whole encoding.
pub proof fn lemma_cmd_round_trip(c: SpecCommand)
    requires
        spec_cmd_round_trippable(c),
    ensures
        spec_deserialize_cmd(spec_serialize_cmd(c)) == Ok::<(SpecCommand, int), DeserializeError>(
            (c, spec_serialize_cmd(c).len() as int),
        ),
{
    lemma_cmd_parse_prefix(c, Seq::empty());
    assert(spec_serialize_cmd(c) + Seq::<u8>::empty() =~= spec_serialize_cmd(c));
}

/// Length invariant at the command layer: the `len` field written at offsets
/// two and three equals the byte length of the payload that follows the
/// fixed header.
pub proof fn lemma_cmd_len_field(c: SpecCommand)
    requires
        spec_cmd_wf(c),
    ensures
        spec_serialize_cmd(c).len() == CMD_HEADER_LEN + spec_cmd_payload(c).len(),
        spec_u16_from_le_bytes(spec_serialize_cmd(c).subrange(2, 4)) == spec_cmd_payload(c).len(),
{
    lemma_auto_spec_u16_to_from_le_bytes();
    assert(spec_serialize_cmd(c).subrange(2, 4) =~= spec_u16_to_le_bytes(
        spec_cmd_payload(c).len() as u16,
    ));
}


/// Truncation rejection: a buffer shorter than the fixed command header
/// fails with a length error before anything else is read.
pub proof fn lemma_cmd_short_header(b: Seq<u8>)
    requires
        b.len() < CMD_HEADER_LEN,
    ensures
        spec_deserialize_cmd(b) == Err::<(SpecCommand, int), DeserializeError>(
            DeserializeError::InvalidLength,
        ),
{
}

} // verus!
