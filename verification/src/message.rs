//! The middle layer: a w1 message.
//!
//! Wire layout, all integers little-endian: message kind (1 byte), status
//! (1 byte), body length (2 bytes), target identifier (8 bytes), then
//! exactly `len` body bytes. The body is empty for add/remove events, a flat
//! run of 4-byte master identifiers for a master listing, and a run of
//! command records for the command kinds.
//!
//! The 8-byte target field carries a master identifier in its low four
//! bytes (the high four are zero) or an opaque 8-byte slave identifier; it
//! is handled here as the little-endian 64-bit value of the whole field,
//! master identifiers being its low 32 bits.

use vstd::prelude::*;
use vstd::bytes::*;
use vstd::slice::*;

use crate::command::CMD_HEADER_LEN;
use crate::command::SpecCommand;
use crate::command::W1NetlinkCommand;
use crate::command::spec_cmd_payload;
use crate::command::spec_cmd_round_trippable;
use crate::command::spec_cmd_serializable;
use crate::command::spec_cmd_wf;
use crate::command::spec_serialize_cmd;
use crate::command::lemma_cmd_parse_prefix;
use crate::Deserializable;
use crate::InvalidValue;
use crate::Serializable;
use crate::SerializeError;
use crate::seq_serialized_bytes;
use crate::spec_deserialize_seq;

verus! {

pub const W1_SLAVE_ADD: u8 = 0;

pub const W1_SLAVE_REMOVE: u8 = 1;

pub const W1_MASTER_ADD: u8 = 2;

pub const W1_MASTER_REMOVE: u8 = 3;

pub const W1_MASTER_CMD: u8 = 4;

pub const W1_SLAVE_CMD: u8 = 5;

pub const W1_LIST_MASTERS: u8 = 6;

/// The width of the fixed message header.
pub const MSG_HEADER_LEN: usize = 12;

/// The kind of a w1 message.
#[derive(Debug, Clone, Copy, PartialEq, Eq, Structural)]
pub enum W1MessageType {
    SlaveAdd,
    SlaveRemove,
    MasterAdd,
    MasterRemove,
    MasterCmd,
    SlaveCmd,
    ListMasters,
}

impl W1MessageType {
    /// The kind byte this message type is written as.
    pub open spec fn spec_code(self) -> u8 {
        match self {
            W1MessageType::SlaveAdd => W1_SLAVE_ADD,
            W1MessageType::SlaveRemove => W1_SLAVE_REMOVE,
            W1MessageType::MasterAdd => W1_MASTER_ADD,
            W1MessageType::MasterRemove => W1_MASTER_REMOVE,
            W1MessageType::MasterCmd => W1_MASTER_CMD,
            W1MessageType::SlaveCmd => W1_SLAVE_CMD,
            W1MessageType::ListMasters => W1_LIST_MASTERS,
        }
    }

    /// Map a kind byte to its message type; bytes past the defined range are
    /// rejected.
    pub fn try_from(value: u8) -> (r: Result<W1MessageType, InvalidValue>)
        ensures
            match r {
                Ok(t) => t.spec_code() == value,
                Err(e) => value > W1_LIST_MASTERS && e == InvalidValue(value),
            },
            value <= W1_LIST_MASTERS ==> r is Ok,
    {
        let t = match value {
            W1_SLAVE_ADD => W1MessageType::SlaveAdd,
            W1_SLAVE_REMOVE => W1MessageType::SlaveRemove,
            W1_MASTER_ADD => W1MessageType::MasterAdd,
            W1_MASTER_REMOVE => W1MessageType::MasterRemove,
            W1_MASTER_CMD => W1MessageType::MasterCmd,
            W1_SLAVE_CMD => W1MessageType::SlaveCmd,
            W1_LIST_MASTERS => W1MessageType::ListMasters,
            _ => {
                return Err(InvalidValue(value));
            },
        };
        Ok(t)
    }

    /// The kind byte this message type is written as.
    pub fn code(self) -> (r: u8)
        ensures
            r == self.spec_code(),
    {
        match self {
            W1MessageType::SlaveAdd => W1_SLAVE_ADD,
            W1MessageType::SlaveRemove => W1_SLAVE_REMOVE,
            W1MessageType::MasterAdd => W1_MASTER_ADD,
            W1MessageType::MasterRemove => W1_MASTER_REMOVE,
            W1MessageType::MasterCmd => W1_MASTER_CMD,
            W1MessageType::SlaveCmd => W1_SLAVE_CMD,
            W1MessageType::ListMasters => W1_LIST_MASTERS,
        }
    }
}

/// The fixed twelve-byte message header as it stands on the wire.
#[derive(Debug, Clone, Copy, PartialEq, Eq, Structural)]
pub struct W1NetlinkMsg {
    /// Message kind.
    pub msg_type: u8,
    /// Error indication from the kernel; zero on success.
    pub status: u8,
    /// Byte length of the body that follows the header.
    pub len: u16,
    /// Master or slave identifier, as the little-endian value of the 8-byte
    /// field.
    pub id: u64,
}

impl W1NetlinkMsg {
    pub open spec fn spec_bytes(self) -> Seq<u8> {
        seq![self.msg_type, self.status] + spec_u16_to_le_bytes(self.len)
            + spec_u64_to_le_bytes(self.id)
    }

    /// Read the fixed header fields from the front of `payload`.
    pub fn parse(payload: &[u8]) -> (r: W1NetlinkMsg)
        requires
            payload@.len() >= MSG_HEADER_LEN,
        ensures
            r.msg_type == payload@[0],
            r.status == payload@[1],
            r.len == spec_u16_from_le_bytes(payload@.subrange(2, 4)),
            r.id == spec_u64_from_le_bytes(payload@.subrange(4, 12)),
    {
        let msg_type = *slice_index_get(payload, 0);
        let status = *slice_index_get(payload, 1);
        let len = u16_from_le_bytes(slice_subrange(payload, 2, 4));
        let id = u64_from_le_bytes(slice_subrange(payload, 4, 12));
        W1NetlinkMsg { msg_type, status, len, id }
    }

    /// Append the fixed header to `buffer`.
    pub fn write(&self, buffer: &mut Vec<u8>)
        ensures
            final(buffer)@ == old(buffer)@ + self.spec_bytes(),
    {
        buffer.push(self.msg_type);
        buffer.push(self.status);
        let mut len_bytes = u16_to_le_bytes(self.len);
        buffer.append(&mut len_bytes);
        let mut id_bytes = u64_to_le_bytes(self.id);
        buffer.append(&mut id_bytes);
        proof {
            assert(buffer@ =~= old(buffer)@ + self.spec_bytes());
        }
    }
}

/// Whether an event message reports a device arriving or leaving.
#[derive(Debug, Clone, Copy, PartialEq, Eq, Structural)]
pub enum EventKind {
    Add,
    Remove,
}

/// The ghost model of one w1 message.
pub enum SpecMessage {
    ListMasters(Option<Seq<u32>>),
    MasterCommand { target: u32, cmds: Seq<SpecCommand> },
    SlaveCommand { target: u64, cmds: Seq<SpecCommand> },
    MasterEvent { kind: EventKind, target: u32 },
    SlaveEvent { kind: EventKind, target: u64 },
}

/// One decoded w1 message.
///
/// `ListMasters` carries no identifiers on a request and the bus master list
/// on a reply. The command kinds carry a batch of command records addressed
/// to one master or slave. Events report devices arriving or leaving; the
/// protocol does not define an encoding for outgoing events or slave
/// command batches, so encoding those fails with
/// [`SerializeError::NotImplemented`].
#[derive(Debug, Clone, PartialEq, Eq)]
pub enum W1NetlinkMessage {
    ListMasters(Option<Vec<u32>>),
    MasterCommand { target: u32, cmds: Vec<W1NetlinkCommand> },
    SlaveCommand { target: u64, cmds: Vec<W1NetlinkCommand> },
    MasterEvent { kind: EventKind, target: u32 },
    SlaveEvent { kind: EventKind, target: u64 },
}

impl DeepView for W1NetlinkMessage {
    type V = SpecMessage;

    open spec fn deep_view(&self) -> SpecMessage {
        match self {
            W1NetlinkMessage::ListMasters(ids) => SpecMessage::ListMasters(ids.deep_view()),
            W1NetlinkMessage::MasterCommand { target, cmds } => SpecMessage::MasterCommand {
                target: *target,
                cmds: cmds.deep_view(),
            },
            W1NetlinkMessage::SlaveCommand { target, cmds } => SpecMessage::SlaveCommand {
                target: *target,
                cmds: cmds.deep_view(),
            },
            W1NetlinkMessage::MasterEvent { kind, target } => SpecMessage::MasterEvent {
                kind: *kind,
                target: *target,
            },
            W1NetlinkMessage::SlaveEvent { kind, target } => SpecMessage::SlaveEvent {
                kind: *kind,
                target: *target,
            },
        }
    }
}

/// The kind a message is written with.
pub open spec fn spec_msg_type(m: SpecMessage) -> W1MessageType {
    match m {
        SpecMessage::ListMasters(_) => W1MessageType::ListMasters,
        SpecMessage::MasterCommand { .. } => W1MessageType::MasterCmd,
        SpecMessage::SlaveCommand { .. } => W1MessageType::SlaveCmd,
        SpecMessage::MasterEvent { kind, .. } => match kind {
            EventKind::Add => W1MessageType::MasterAdd,
            EventKind::Remove => W1MessageType::MasterRemove,
        },
        SpecMessage::SlaveEvent { kind, .. } => match kind {
            EventKind::Add => W1MessageType::SlaveAdd,
            EventKind::Remove => W1MessageType::SlaveRemove,
        },
    }
}

/// The 8-byte target field of a message, as a little-endian 64-bit value.
/// Master identifiers sit in the low 32 bits with the high bits zero.
pub open spec fn spec_msg_id(m: SpecMessage) -> u64 {
    match m {
        SpecMessage::ListMasters(_) => 0,
        SpecMessage::MasterCommand { target, .. } => target as u64,
        SpecMessage::SlaveCommand { target, .. } => target,
        SpecMessage::MasterEvent { target, .. } => target as u64,
        SpecMessage::SlaveEvent { target, .. } => target,
    }
}

/// The concatenated encodings of a run of command records.
pub open spec fn spec_cmds_bytes(cs: Seq<SpecCommand>) -> Seq<u8>
    decreases cs.len(),
{
    if cs.len() == 0 {
        Seq::empty()
    } else {
        spec_cmds_bytes(cs.drop_last()) + spec_serialize_cmd(cs.last())
    }
}

/// The concatenated little-endian encodings of a run of 32-bit identifiers.
pub open spec fn spec_ids_bytes(ids: Seq<u32>) -> Seq<u8>
    decreases ids.len(),
{
    if ids.len() == 0 {
        Seq::empty()
    } else {
        spec_ids_bytes(ids.drop_last()) + spec_u32_to_le_bytes(ids.last())
    }
}

/// The 32-bit identifiers packed four bytes apiece into `b`.
pub open spec fn spec_ids_from_bytes(b: Seq<u8>) -> Seq<u32> {
    Seq::new(b.len() / 4, |i: int| spec_u32_from_le_bytes(b.subrange(4 * i, 4 * i + 4)))
}

/// The body bytes a message carries after its header.
pub open spec fn spec_msg_body(m: SpecMessage) -> Seq<u8> {
    match m {
        SpecMessage::ListMasters(ids) => match ids {
            Some(s) => spec_ids_bytes(s),
            None => Seq::empty(),
        },
        SpecMessage::MasterCommand { cmds, .. } => spec_cmds_bytes(cmds),
        SpecMessage::SlaveCommand { cmds, .. } => spec_cmds_bytes(cmds),
        _ => Seq::empty(),
    }
}

/// Every nested payload fits the 16-bit length field that prefixes it.
pub open spec fn spec_cmds_wf(cmds: Seq<SpecCommand>) -> bool {
    &&& forall|i: int| 0 <= i < cmds.len() ==> spec_cmd_wf(#[trigger] cmds[i])
    &&& spec_cmds_bytes(cmds).len() <= u16::MAX
}

/// The message body fits the 16-bit length field of the header.
pub open spec fn spec_msg_wf(m: SpecMessage) -> bool {
    match m {
        SpecMessage::ListMasters(ids) => match ids {
            Some(s) => 4 * s.len() <= u16::MAX,
            None => true,
        },
        SpecMessage::MasterCommand { cmds, .. } => spec_cmds_wf(cmds),
        SpecMessage::SlaveCommand { cmds, .. } => spec_cmds_wf(cmds),
        _ => true,
    }
}

/// The message's variant, and every command it carries, has a defined wire
/// format.
pub open spec fn spec_msg_serializable(m: SpecMessage) -> bool {
    match m {
        SpecMessage::ListMasters(_) => true,
        SpecMessage::MasterCommand { cmds, .. } => forall|i: int|
            0 <= i < cmds.len() ==> spec_cmd_serializable(#[trigger] cmds[i]),
        _ => false,
    }
}

/// A message whose encoding decodes back to the same value. This excludes
/// `ListMasters(None)` (an empty body decodes as an empty listing) and
/// carries the command layer's own round-trip bound on each record.
pub open spec fn spec_msg_round_trippable(m: SpecMessage) -> bool {
    &&& spec_msg_wf(m)
    &&& match m {
        SpecMessage::ListMasters(ids) => ids is Some,
        SpecMessage::MasterCommand { cmds, .. } => forall|i: int|
            0 <= i < cmds.len() ==> spec_cmd_round_trippable(#[trigger] cmds[i]),
        _ => false,
    }
}

/// The wire encoding of a message: kind, zero status, body length, target
/// identifier, body.
pub open spec fn spec_serialize_msg(m: SpecMessage) -> Seq<u8> {
    seq![spec_msg_type(m).spec_code(), 0u8]
        + spec_u16_to_le_bytes(spec_msg_body(m).len() as u16)
        + spec_u64_to_le_bytes(spec_msg_id(m)) + spec_msg_body(m)
}

/// Failure of decoding a w1 message.
#[derive(Debug, Clone, Copy, PartialEq, Eq, Structural)]
pub enum DeserializeError {
    /// Fewer bytes available than the fixed header requires.
    InvalidLength,
    /// The kind byte does not name a known message type.
    InvalidMessageType(InvalidValue),
    /// The declared body length exceeds the bytes available, or a master
    /// listing ends in a truncated identifier.
    InvalidPayloadLength,
    /// The kernel reported an error for this message: its status byte is
    /// nonzero, and the body is not interpreted.
    KernelError(u8),
    /// A command record inside the body failed to decode.
    Command(crate::command::DeserializeError),
}

/// Ghost-level decoding of one message from the front of `b`: header width,
/// kind and status are validated in that order, then the declared body
/// length, and only then is the body interpreted.
pub open spec fn spec_deserialize_msg(b: Seq<u8>) -> Result<(SpecMessage, int), DeserializeError> {
    if b.len() < MSG_HEADER_LEN {
        Err(DeserializeError::InvalidLength)
    } else {
        let code = b[0];
        let status = b[1];
        let len = spec_u16_from_le_bytes(b.subrange(2, 4)) as int;
        let id = spec_u64_from_le_bytes(b.subrange(4, 12));
        if code > W1_LIST_MASTERS {
            Err(DeserializeError::InvalidMessageType(InvalidValue(code)))
        } else if status != 0 {
            Err(DeserializeError::KernelError(status))
        } else if MSG_HEADER_LEN + len > b.len() {
            Err(DeserializeError::InvalidPayloadLength)
        } else {
            let body = b.subrange(MSG_HEADER_LEN as int, MSG_HEADER_LEN + len);
            let consumed = MSG_HEADER_LEN + len;
            if code == W1_SLAVE_ADD {
                Ok((SpecMessage::SlaveEvent { kind: EventKind::Add, target: id }, consumed))
            } else if code == W1_SLAVE_REMOVE {
                Ok((SpecMessage::SlaveEvent { kind: EventKind::Remove, target: id }, consumed))
            } else if code == W1_MASTER_ADD {
                Ok(
                    (
                        SpecMessage::MasterEvent { kind: EventKind::Add, target: id as u32 },
                        consumed,
                    ),
                )
            } else if code == W1_MASTER_REMOVE {
                Ok(
                    (
                        SpecMessage::MasterEvent { kind: EventKind::Remove, target: id as u32 },
                        consumed,
                    ),
                )
            } else if code == W1_MASTER_CMD {
                match spec_deserialize_seq::<W1NetlinkCommand>(body) {
                    Ok(cmds) => Ok(
                        (SpecMessage::MasterCommand { target: id as u32, cmds }, consumed),
                    ),
                    Err(e) => Err(DeserializeError::Command(e)),
                }
            } else if code == W1_SLAVE_CMD {
                match spec_deserialize_seq::<W1NetlinkCommand>(body) {
                    Ok(cmds) => Ok((SpecMessage::SlaveCommand { target: id, cmds }, consumed)),
                    Err(e) => Err(DeserializeError::Command(e)),
                }
            } else {
                if len % 4 != 0 {
                    Err(DeserializeError::InvalidPayloadLength)
                } else {
                    Ok((SpecMessage::ListMasters(Some(spec_ids_from_bytes(body))), consumed))
                }
            }
        }
    }
}

impl W1NetlinkMessage {
    /// Build a message of the given kind addressed to `id`, carrying `cmds`
    /// where the kind has a command body. Master identifiers are taken from
    /// the low 32 bits of `id`.
    pub fn new(msg_type: W1MessageType, id: u64, cmds: Vec<W1NetlinkCommand>) -> (r:
        W1NetlinkMessage)
        ensures
            msg_type == W1MessageType::MasterCmd ==> r.deep_view()
                == (SpecMessage::MasterCommand { target: id as u32, cmds: cmds.deep_view() }),
            msg_type == W1MessageType::SlaveCmd ==> r.deep_view()
                == (SpecMessage::SlaveCommand { target: id, cmds: cmds.deep_view() }),
            msg_type == W1MessageType::ListMasters ==> r.deep_view() == SpecMessage::ListMasters(
                None,
            ),
            msg_type == W1MessageType::MasterAdd ==> r.deep_view()
                == (SpecMessage::MasterEvent { kind: EventKind::Add, target: id as u32 }),
            msg_type == W1MessageType::MasterRemove ==> r.deep_view()
                == (SpecMessage::MasterEvent { kind: EventKind::Remove, target: id as u32 }),
            msg_type == W1MessageType::SlaveAdd ==> r.deep_view()
                == (SpecMessage::SlaveEvent { kind: EventKind::Add, target: id }),
            msg_type == W1MessageType::SlaveRemove ==> r.deep_view()
                == (SpecMessage::SlaveEvent { kind: EventKind::Remove, target: id }),
    {
        match msg_type {
            W1MessageType::MasterCmd => W1NetlinkMessage::MasterCommand {
                target: #[verifier::truncate] (id as u32),
                cmds,
            },
            W1MessageType::SlaveCmd => W1NetlinkMessage::SlaveCommand { target: id, cmds },
            W1MessageType::ListMasters => W1NetlinkMessage::ListMasters(None),
            W1MessageType::MasterAdd => W1NetlinkMessage::MasterEvent {
                kind: EventKind::Add,
                target: #[verifier::truncate] (id as u32),
            },
            W1MessageType::MasterRemove => W1NetlinkMessage::MasterEvent {
                kind: EventKind::Remove,
                target: #[verifier::truncate] (id as u32),
            },
            W1MessageType::SlaveAdd => W1NetlinkMessage::SlaveEvent {
                kind: EventKind::Add,
                target: id,
            },
            W1MessageType::SlaveRemove => W1NetlinkMessage::SlaveEvent {
                kind: EventKind::Remove,
                target: id,
            },
        }
    }

    /// Whether every nested payload fits the length field that prefixes it;
    /// the encoding functions require it.
    pub fn check_wf(&self) -> (r: bool)
        ensures
            r == spec_msg_wf(self.deep_view()),
    {
        msg_checked_len(self).is_some()
    }

    /// The kind this message is written with.
    pub fn msg_type(&self) -> (r: W1MessageType)
        ensures
            r == spec_msg_type(self.deep_view()),
    {
        match self {
            W1NetlinkMessage::ListMasters(_) => W1MessageType::ListMasters,
            W1NetlinkMessage::MasterCommand { .. } => W1MessageType::MasterCmd,
            W1NetlinkMessage::SlaveCommand { .. } => W1MessageType::SlaveCmd,
            W1NetlinkMessage::MasterEvent { kind, .. } => match kind {
                EventKind::Add => W1MessageType::MasterAdd,
                EventKind::Remove => W1MessageType::MasterRemove,
            },
            W1NetlinkMessage::SlaveEvent { kind, .. } => match kind {
                EventKind::Add => W1MessageType::SlaveAdd,
                EventKind::Remove => W1MessageType::SlaveRemove,
            },
        }
    }
}

/// The byte-level encoding of a run of command values equals the
/// model-level encoding of their deep views.
pub proof fn lemma_cmds_bytes_deep_view(s: Seq<W1NetlinkCommand>)
    ensures
        seq_serialized_bytes(s) == spec_cmds_bytes(Seq::new(s.len(), |i: int| s[i].deep_view())),
    decreases s.len(),
{
    let dv = Seq::new(s.len(), |i: int| s[i].deep_view());
    if s.len() == 0 {
        assert(dv =~= Seq::<SpecCommand>::empty());
    } else {
        lemma_cmds_bytes_deep_view(s.drop_last());
        let dvp = Seq::new(s.drop_last().len(), |i: int| s.drop_last()[i].deep_view());
        assert(dvp =~= dv.drop_last());
        assert(s.last().spec_bytes() == spec_serialize_cmd(dv.last()));
    }
}

pub proof fn lemma_ids_bytes_len(ids: Seq<u32>)
    ensures
        spec_ids_bytes(ids).len() == 4 * ids.len(),
    decreases ids.len(),
{
    lemma_auto_spec_u32_to_from_le_bytes();
    if ids.len() > 0 {
        lemma_ids_bytes_len(ids.drop_last());
    }
}

/// Unpacking the packed encoding of a run of 32-bit identifiers yields the
/// run back.
pub proof fn lemma_ids_round_trip(ids: Seq<u32>)
    ensures
        spec_ids_from_bytes(spec_ids_bytes(ids)) == ids,
    decreases ids.len(),
{
    lemma_auto_spec_u32_to_from_le_bytes();
    lemma_ids_bytes_len(ids);
    let b = spec_ids_bytes(ids);
    let n = ids.len() as int;
    assert(b.len() as int / 4 == n) by (nonlinear_arith)
        requires
            b.len() == 4 * n,
            n >= 0,
    ;
    if n == 0 {
        assert(spec_ids_from_bytes(b) =~= ids);
    } else {
        lemma_ids_round_trip(ids.drop_last());
        lemma_ids_bytes_len(ids.drop_last());
        let bp = spec_ids_bytes(ids.drop_last());
        assert(bp.len() as int / 4 == n - 1) by (nonlinear_arith)
            requires
                bp.len() == 4 * (n - 1),
                n >= 1,
        ;
        assert forall|i: int| 0 <= i < n implies #[trigger] spec_ids_from_bytes(b)[i]
            == ids[i] by {
            if i < n - 1 {
                assert(b.subrange(4 * i, 4 * i + 4) =~= bp.subrange(4 * i, 4 * i + 4));
                assert(spec_ids_from_bytes(bp)[i] == ids.drop_last()[i]);
            } else {
                assert(b.subrange(4 * i, 4 * i + 4) =~= spec_u32_to_le_bytes(ids.last()));
            }
        }
        assert(spec_ids_from_bytes(b) =~= ids);
    }
}

impl Serializable for W1NetlinkMessage {
    open spec fn wf(&self) -> bool {
        spec_msg_wf(self.deep_view())
    }

    open spec fn serializable(&self) -> bool {
        spec_msg_serializable(self.deep_view())
    }

    open spec fn spec_bytes(&self) -> Seq<u8> {
        spec_serialize_msg(self.deep_view())
    }

    fn buffer_len(&self) -> (r: Result<usize, SerializeError>) {
        proof {
            lemma_auto_spec_u16_to_from_le_bytes();
            lemma_auto_spec_u64_to_from_le_bytes();
        }
        match self {
            W1NetlinkMessage::ListMasters(ids) => match ids {
                Some(v) => {
                    proof {
                        assert(v.deep_view() =~= v@);
                        lemma_ids_bytes_len(v@);
                    }
                    Ok(MSG_HEADER_LEN + 4 * v.len())
                },
                None => Ok(MSG_HEADER_LEN),
            },
            W1NetlinkMessage::MasterCommand { cmds, .. } => {
                proof {
                    lemma_cmds_bytes_deep_view(cmds@);
                    assert(cmds.deep_view() =~= Seq::new(cmds@.len(), |i: int| cmds@[i].deep_view()));
                    assert(seq_serialized_bytes(cmds@) == spec_cmds_bytes(cmds.deep_view()));
                    assert forall|i: int| 0 <= i < cmds@.len() implies (#[trigger] cmds@[i]).wf() by {
                        assert(spec_cmd_wf(cmds.deep_view()[i]));
                    }
                }
                match cmds.buffer_len() {
                    Ok(n) => {
                        proof {
                            assert forall|i: int| 0 <= i < cmds.deep_view().len() implies
                                spec_cmd_serializable(#[trigger] cmds.deep_view()[i]) by {
                                assert(cmds@[i].serializable());
                            }
                        }
                        Ok(MSG_HEADER_LEN + n)
                    },
                    Err(e) => {
                        proof {
                            let i = choose|i: int|
                                0 <= i < cmds@.len() && !(#[trigger] cmds@[i].serializable());
                            assert(!spec_cmd_serializable(cmds.deep_view()[i]));
                        }
                        Err(e)
                    },
                }
            },
            _ => Err(SerializeError::NotImplemented),
        }
    }

    fn serialize(&self, buffer: &mut Vec<u8>) -> (r: Result<(), SerializeError>) {
        proof {
            lemma_auto_spec_u16_to_from_le_bytes();
            lemma_auto_spec_u64_to_from_le_bytes();
        }
        let mut body: Vec<u8> = Vec::new();
        match self {
            W1NetlinkMessage::ListMasters(ids) => match ids {
                Some(v) => {
                    proof {
                        assert(v.deep_view() =~= v@);
                        lemma_ids_bytes_len(v@);
                        assert(v@.take(0) =~= Seq::<u32>::empty());
                    }
                    let mut i: usize = 0;
                    while i < v.len()
                        invariant
                            0 <= i <= v@.len(),
                            body@ == spec_ids_bytes(v@.take(i as int)),
                        decreases v@.len() - i,
                    {
                        let mut id_bytes = u32_to_le_bytes(v[i]);
                        body.append(&mut id_bytes);
                        proof {
                            assert(v@.take(i + 1).drop_last() =~= v@.take(i as int));
                            assert(v@.take(i + 1).last() == v@[i as int]);
                        }
                        i = i + 1;
                    }
                    proof {
                        assert(v@.take(v@.len() as int) =~= v@);
                    }
                },
                None => {},
            },
            W1NetlinkMessage::MasterCommand { cmds, .. } => {
                proof {
                    lemma_cmds_bytes_deep_view(cmds@);
                    assert(cmds.deep_view() =~= Seq::new(cmds@.len(), |i: int| cmds@[i].deep_view()));
                    assert(seq_serialized_bytes(cmds@) == spec_cmds_bytes(cmds.deep_view()));
                    assert forall|i: int| 0 <= i < cmds@.len() implies (#[trigger] cmds@[i]).wf() by {
                        assert(spec_cmd_wf(cmds.deep_view()[i]));
                    }
                }
                match cmds.serialize(&mut body) {
                    Ok(_) => {
                        proof {
                            assert forall|i: int| 0 <= i < cmds.deep_view().len() implies
                                spec_cmd_serializable(#[trigger] cmds.deep_view()[i]) by {
                                assert(cmds@[i].serializable());
                            }
                        }
                    },
                    Err(e) => {
                        proof {
                            let i = choose|i: int|
                                0 <= i < cmds@.len() && !(#[trigger] cmds@[i].serializable());
                            assert(!spec_cmd_serializable(cmds.deep_view()[i]));
                        }
                        return Err(e);
                    },
                }
            },
            _ => {
                return Err(SerializeError::NotImplemented);
            },
        }
        let id: u64 = match self {
            W1NetlinkMessage::MasterCommand { target, .. } => *target as u64,
            _ => 0,
        };
        let header = W1NetlinkMsg {
            msg_type: self.msg_type().code(),
            status: 0,
            len: body.len() as u16,
            id,
        };
        header.write(buffer);
        buffer.append(&mut body);
        proof {
            assert(buffer@ =~= old(buffer)@ + self.spec_bytes());
        }
        Ok(())
    }
}

impl Deserializable for W1NetlinkMessage {
    type Error = DeserializeError;

    open spec fn spec_deserialize(payload: Seq<u8>) -> Result<(SpecMessage, int), DeserializeError> {
        spec_deserialize_msg(payload)
    }

    proof fn lemma_deserialize_progress(payload: Seq<u8>) {
    }

    fn deserialize(payload: &[u8]) -> (r: Result<(Self, usize), DeserializeError>) {
        if payload.len() < MSG_HEADER_LEN {
            return Err(DeserializeError::InvalidLength);
        }
        let header = W1NetlinkMsg::parse(payload);
        let len = header.len as usize;
        let msg_type = match W1MessageType::try_from(header.msg_type) {
            Ok(t) => t,
            Err(e) => {
                return Err(DeserializeError::InvalidMessageType(e));
            },
        };
        if header.status != 0 {
            return Err(DeserializeError::KernelError(header.status));
        }
        if len > payload.len() - MSG_HEADER_LEN {
            return Err(DeserializeError::InvalidPayloadLength);
        }
        let body = slice_subrange(payload, MSG_HEADER_LEN, MSG_HEADER_LEN + len);
        let consumed = MSG_HEADER_LEN + len;
        match msg_type {
            W1MessageType::SlaveAdd => Ok(
                (W1NetlinkMessage::SlaveEvent { kind: EventKind::Add, target: header.id }, consumed),
            ),
            W1MessageType::SlaveRemove => Ok(
                (
                    W1NetlinkMessage::SlaveEvent { kind: EventKind::Remove, target: header.id },
                    consumed,
                ),
            ),
            W1MessageType::MasterAdd => Ok(
                (
                    W1NetlinkMessage::MasterEvent {
                        kind: EventKind::Add,
                        target: #[verifier::truncate] (header.id as u32),
                    },
                    consumed,
                ),
            ),
            W1MessageType::MasterRemove => Ok(
                (
                    W1NetlinkMessage::MasterEvent {
                        kind: EventKind::Remove,
                        target: #[verifier::truncate] (header.id as u32),
                    },
                    consumed,
                ),
            ),
            W1MessageType::MasterCmd => match Vec::<W1NetlinkCommand>::deserialize(body) {
                Ok((cmds, _)) => Ok(
                    (
                        W1NetlinkMessage::MasterCommand {
                            target: #[verifier::truncate] (header.id as u32),
                            cmds,
                        },
                        consumed,
                    ),
                ),
                Err(e) => Err(DeserializeError::Command(e)),
            },
            W1MessageType::SlaveCmd => match Vec::<W1NetlinkCommand>::deserialize(body) {
                Ok((cmds, _)) => Ok(
                    (W1NetlinkMessage::SlaveCommand { target: header.id, cmds }, consumed),
                ),
                Err(e) => Err(DeserializeError::Command(e)),
            },
            W1MessageType::ListMasters => {
                if len % 4 != 0 {
                    return Err(DeserializeError::InvalidPayloadLength);
                }
                let ghost target_ids = spec_ids_from_bytes(body@);
                let n = len / 4;
                proof {
                    vstd::arithmetic::div_mod::lemma_fundamental_div_mod(len as int, 4);
                    assert(target_ids.take(0) =~= Seq::<u32>::empty());
                }
                let mut ids: Vec<u32> = Vec::new();
                let mut i: usize = 0;
                while i < n
                    invariant
                        0 <= i <= n,
                        n == len / 4,
                        len == 4 * (len / 4),
                        body@.len() == len,
                        target_ids == spec_ids_from_bytes(body@),
                        ids@ == target_ids.take(i as int),
                    decreases n - i,
                {
                    let id = u32_from_le_bytes(slice_subrange(body, 4 * i, 4 * i + 4));
                    ids.push(id);
                    proof {
                        assert(target_ids.take(i + 1) =~= target_ids.take(i as int).push(
                            target_ids[i as int],
                        ));
                    }
                    i = i + 1;
                }
                proof {
                    assert(target_ids.take(n as int) =~= target_ids);
                    assert(ids.deep_view() =~= ids@);
                }
                Ok((W1NetlinkMessage::ListMasters(Some(ids)), consumed))
            },
        }
    }
}


/// The total wire length of a run of command records: a fixed header plus
/// the payload, record by record.
pub open spec fn spec_cmds_total_len(cs: Seq<SpecCommand>) -> int
    decreases cs.len(),
{
    if cs.len() == 0 {
        0
    } else {
        spec_cmds_total_len(cs.drop_last()) + CMD_HEADER_LEN + spec_cmd_payload(cs.last()).len()
    }
}

pub proof fn lemma_cmds_bytes_len(cs: Seq<SpecCommand>)
    ensures
        spec_cmds_bytes(cs).len() == spec_cmds_total_len(cs),
    decreases cs.len(),
{
    lemma_auto_spec_u16_to_from_le_bytes();
    if cs.len() > 0 {
        lemma_cmds_bytes_len(cs.drop_last());
    }
}

pub proof fn lemma_cmds_bytes_first(cs: Seq<SpecCommand>)
    requires
        cs.len() > 0,
    ensures
        spec_cmds_bytes(cs) == spec_serialize_cmd(cs.first()) + spec_cmds_bytes(cs.drop_first()),
    decreases cs.len(),
{
    if cs.len() == 1 {
        assert(cs.drop_last() =~= Seq::<SpecCommand>::empty());
        assert(cs.drop_first() =~= Seq::<SpecCommand>::empty());
        assert(spec_cmds_bytes(cs) =~= spec_serialize_cmd(cs.first()) + spec_cmds_bytes(
            cs.drop_first(),
        ));
    } else {
        lemma_cmds_bytes_first(cs.drop_last());
        assert(cs.drop_last().first() == cs.first());
        assert(cs.drop_last().drop_first() =~= cs.drop_first().drop_last());
        assert(cs.drop_first().last() == cs.last());
        assert(spec_cmds_bytes(cs) =~= spec_serialize_cmd(cs.first()) + spec_cmds_bytes(
            cs.drop_first(),
        ));
    }
}

/// Sequence exhaustion: decoding the concatenation of encoded command
/// records consumes exactly the sum of each record's header-plus-payload
/// width and yields the records back in their original order.
pub proof fn lemma_cmds_round_trip(cs: Seq<SpecCommand>)
    requires
        forall|i: int| 0 <= i < cs.len() ==> spec_cmd_round_trippable(#[trigger] cs[i]),
    ensures
        spec_cmds_bytes(cs).len() == spec_cmds_total_len(cs),
        spec_deserialize_seq::<W1NetlinkCommand>(spec_cmds_bytes(cs)) == Ok::<
            Seq<SpecCommand>,
            crate::command::DeserializeError,
        >(cs),
    decreases cs.len(),
{
    lemma_auto_spec_u16_to_from_le_bytes();
    lemma_cmds_bytes_len(cs);
    let b = spec_cmds_bytes(cs);
    if cs.len() == 0 {
        assert(b =~= Seq::<u8>::empty());
        assert(Seq::<SpecCommand>::empty() =~= cs);
    } else {
        lemma_cmds_bytes_first(cs);
        let c0 = cs.first();
        let rest_bytes = spec_cmds_bytes(cs.drop_first());
        lemma_cmd_parse_prefix(c0, rest_bytes);
        let n0 = spec_serialize_cmd(c0).len() as int;
        assert(b.skip(n0) =~= rest_bytes);
        assert forall|i: int| 0 <= i < cs.drop_first().len() implies spec_cmd_round_trippable(
            #[trigger] cs.drop_first()[i],
        ) by {
            assert(cs.drop_first()[i] == cs[i + 1]);
        }
        lemma_cmds_round_trip(cs.drop_first());
        assert(seq![c0] + cs.drop_first() =~= cs);
    }
}

/// Length invariant at the message layer: the `len` field written at
/// offsets two and three equals the byte length of the body that follows
/// the fixed header.
pub proof fn lemma_msg_len_field(m: SpecMessage)
    requires
        spec_msg_wf(m),
    ensures
        spec_serialize_msg(m).len() == MSG_HEADER_LEN + spec_msg_body(m).len(),
        spec_u16_from_le_bytes(spec_serialize_msg(m).subrange(2, 4)) == spec_msg_body(m).len(),
{
    lemma_auto_spec_u16_to_from_le_bytes();
    lemma_auto_spec_u64_to_from_le_bytes();
    if let SpecMessage::ListMasters(ids) = m {
        if let Some(s) = ids {
            lemma_ids_bytes_len(s);
        }
    }
    assert(spec_serialize_msg(m).subrange(2, 4) =~= spec_u16_to_le_bytes(
        spec_msg_body(m).len() as u16,
    ));
}

/// Decoding the encoding of a message from the front of any buffer yields
/// the message back and consumes exactly its encoded length.
pub proof fn lemma_msg_parse_prefix(m: SpecMessage, tail: Seq<u8>)
    requires
        spec_msg_round_trippable(m),
    ensures
        spec_deserialize_msg(spec_serialize_msg(m) + tail) == Ok::<
            (SpecMessage, int),
            DeserializeError,
        >((m, spec_serialize_msg(m).len() as int)),
{
    lemma_auto_spec_u16_to_from_le_bytes();
    lemma_auto_spec_u64_to_from_le_bytes();
    let bytes = spec_serialize_msg(m);
    let body = spec_msg_body(m);
    let b = bytes + tail;
    if let SpecMessage::ListMasters(ids) = m {
        if let Some(s) = ids {
            lemma_ids_bytes_len(s);
        }
    }
    if let SpecMessage::MasterCommand { cmds, .. } = m {
        lemma_cmds_round_trip(cmds);
    }
    assert(b[0] == spec_msg_type(m).spec_code());
    assert(b[1] == 0);
    assert(b.subrange(2, 4) =~= spec_u16_to_le_bytes(body.len() as u16));
    assert(b.subrange(4, 12) =~= spec_u64_to_le_bytes(spec_msg_id(m)));
    assert(b.subrange(MSG_HEADER_LEN as int, MSG_HEADER_LEN + body.len()) =~= body);
    match m {
        SpecMessage::ListMasters(ids) => {
            if let Some(s) = ids {
                assert(body.len() as int % 4 == 0) by (nonlinear_arith)
                    requires
                        body.len() == 4 * s.len(),
                ;
                lemma_ids_round_trip(s);
            }
        },
        SpecMessage::MasterCommand { target, cmds } => {
            assert((target as u64) as u32 == target);
        },
        _ => {},
    }
}

/// Round-trip at the message layer: decoding an encoded message yields the
/// message back, consuming the whole encoding.
pub proof fn lemma_msg_round_trip(m: SpecMessage)
    requires
        spec_msg_round_trippable(m),
    ensures
        spec_deserialize_msg(spec_serialize_msg(m)) == Ok::<(SpecMessage, int), DeserializeError>(
            (m, spec_serialize_msg(m).len() as int),
        ),
{
    lemma_msg_parse_prefix(m, Seq::empty());
    assert(spec_serialize_msg(m) + Seq::<u8>::empty() =~= spec_serialize_msg(m));
}

/// Truncation rejection: a buffer shorter than the fixed message header
/// fails with a length error before anything else is read.
pub proof fn lemma_msg_short_header(b: Seq<u8>)
    requires
        b.len() < MSG_HEADER_LEN,
    ensures
        spec_deserialize_msg(b) == Err::<(SpecMessage, int), DeserializeError>(
            DeserializeError::InvalidLength,
        ),
{
}

/// Truncation rejection: a master-listing body whose length is not a whole
/// number of 4-byte identifiers leaves a truncated trailing chunk and is
/// rejected.
pub proof fn lemma_list_masters_truncated(b: Seq<u8>)
    requires
        b.len() >= MSG_HEADER_LEN,
        b[0] == W1_LIST_MASTERS,
        b[1] == 0,
        MSG_HEADER_LEN + spec_u16_from_le_bytes(b.subrange(2, 4)) as int <= b.len(),
        spec_u16_from_le_bytes(b.subrange(2, 4)) as int % 4 != 0,
    ensures
        spec_deserialize_msg(b) == Err::<(SpecMessage, int), DeserializeError>(
            DeserializeError::InvalidPayloadLength,
        ),
{
}


pub proof fn lemma_cmds_total_len_mono(cs: Seq<SpecCommand>, k: int)
    requires
        0 <= k <= cs.len(),
    ensures
        spec_cmds_total_len(cs) >= spec_cmds_total_len(cs.take(k)),
    decreases cs.len() - k,
{
    if k == cs.len() {
        assert(cs.take(k) =~= cs);
    } else {
        lemma_cmds_total_len_mono(cs, k + 1);
        assert(cs.take(k + 1).drop_last() =~= cs.take(k));
        assert(cs.take(k + 1).last() == cs[k]);
    }
}

/// The total encoded length of a run of command records, when every record
/// fits its length field and the run fits a 16-bit body length; `None`
/// otherwise.
pub(crate) fn cmds_checked_len(cmds: &Vec<W1NetlinkCommand>) -> (r: Option<usize>)
    ensures
        match r {
            Some(n) => spec_cmds_wf(cmds.deep_view()) && n == spec_cmds_bytes(
                cmds.deep_view(),
            ).len() && n <= 0xFFFF,
            None => !spec_cmds_wf(cmds.deep_view()),
        },
{
    let ghost dv = cmds.deep_view();
    proof {
        assert(dv =~= Seq::new(cmds@.len(), |i: int| cmds@[i].deep_view()));
        lemma_cmds_bytes_len(dv);
        assert(dv.take(0) =~= Seq::<SpecCommand>::empty());
    }
    let mut total: usize = 0;
    let mut i: usize = 0;
    while i < cmds.len()
        invariant
            0 <= i <= cmds@.len(),
            dv == cmds.deep_view(),
            dv.len() == cmds@.len(),
            total == spec_cmds_total_len(dv.take(i as int)),
            total <= 0xFFFF,
            forall|j: int| 0 <= j < i ==> spec_cmd_wf(#[trigger] dv[j]),
        decreases cmds@.len() - i,
    {
        let item_len: usize = match &cmds[i] {
            W1NetlinkCommand::Write(p) => p.len(),
            W1NetlinkCommand::Read(p) => match p {
                Some(q) => q.len(),
                None => 0,
            },
            _ => 0,
        };
        proof {
            assert(dv[i as int] == cmds@[i as int].deep_view());
            assert(item_len == spec_cmd_payload(dv[i as int]).len());
        }
        if item_len > 0xFFFF {
            proof {
                assert(!spec_cmd_wf(dv[i as int]));
            }
            return None;
        }
        proof {
            assert(dv.take(i + 1).drop_last() =~= dv.take(i as int));
            assert(dv.take(i + 1).last() == dv[i as int]);
        }
        total = total + CMD_HEADER_LEN + item_len;
        if total > 0xFFFF {
            proof {
                lemma_cmds_total_len_mono(dv, i + 1);
                lemma_cmds_bytes_len(dv);
            }
            return None;
        }
        i = i + 1;
    }
    proof {
        assert(dv.take(dv.len() as int) =~= dv);
        lemma_cmds_bytes_len(dv);
    }
    Some(total)
}

/// The full encoded length of a message, header and body, when its nested
/// lengths fit their fields; `None` otherwise.
pub(crate) fn msg_checked_len(m: &W1NetlinkMessage) -> (r: Option<usize>)
    ensures
        match r {
            Some(n) => spec_msg_wf(m.deep_view()) && n == MSG_HEADER_LEN + spec_msg_body(
                m.deep_view(),
            ).len() && n <= MSG_HEADER_LEN + 0xFFFF,
            None => !spec_msg_wf(m.deep_view()),
        },
{
    match m {
        W1NetlinkMessage::ListMasters(ids) => match ids {
            Some(v) => {
                proof {
                    assert(v.deep_view() =~= v@);
                    lemma_ids_bytes_len(v@);
                }
                if v.len() <= 16383 {
                    Some(MSG_HEADER_LEN + 4 * v.len())
                } else {
                    None
                }
            },
            None => Some(MSG_HEADER_LEN),
        },
        W1NetlinkMessage::MasterCommand { cmds, .. } => match cmds_checked_len(cmds) {
            Some(n) => Some(MSG_HEADER_LEN + n),
            None => None,
        },
        W1NetlinkMessage::SlaveCommand { cmds, .. } => match cmds_checked_len(cmds) {
            Some(n) => Some(MSG_HEADER_LEN + n),
            None => None,
        },
        _ => Some(MSG_HEADER_LEN),
    }
}

} // verus!
