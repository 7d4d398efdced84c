//! The outer layer: the netlink connector envelope.
//!
//! Wire layout, all integers little-endian: family index (4 bytes), family
//! value (4 bytes), sequence number (4 bytes), acknowledgement number
//! (4 bytes), payload length (2 bytes), flags (2 bytes), then exactly `len`
//! payload bytes holding one or more w1 messages. Decoding validates, in
//! order: the transport-level message type, the header width, the family
//! pair, and the declared payload length, before any message is read.

use vstd::prelude::*;
use vstd::bytes::*;
use vstd::slice::*;

use crate::message::SpecMessage;
use crate::message::W1NetlinkMessage;
use crate::message::spec_msg_round_trippable;
use crate::message::spec_msg_serializable;
use crate::message::spec_msg_wf;
use crate::message::spec_serialize_msg;
use crate::message::lemma_msg_parse_prefix;
use crate::Deserializable;
use crate::Serializable;
use crate::SerializeError;
use crate::seq_serialized_bytes;
use crate::spec_deserialize_seq;

verus! {

/// The netlink protocol number of the kernel connector.
pub const NETLINK_CONNECTOR: u16 = 11;

/// The registered family index of the w1 connector protocol.
pub const CONNECTOR_W1_IDX: u32 = 0x3;

/// The registered family value of the w1 connector protocol.
pub const CONNECTOR_W1_VAL: u32 = 0x1;

/// The width of the fixed connector header.
pub const CN_HEADER_LEN: usize = 20;

/// Relies on `netlink_sys::constants::NETLINK_CONNECTOR`: the netlink
/// protocol number of the kernel connector, 11.
#[verifier::external_body]
fn netlink_connector_protocol() -> (r: u16)
    ensures
        r == NETLINK_CONNECTOR,
{
    netlink_sys::constants::NETLINK_CONNECTOR as u16
}

/// A payload family that can ride inside a connector envelope: it names the
/// pair of 32-bit constants identifying its protocol family, which the
/// envelope codec stamps on outgoing frames and validates on incoming ones.
pub trait NlConnectorType {
    spec fn spec_idx() -> u32;

    spec fn spec_val() -> u32;

    fn idx() -> (r: u32)
        ensures
            r == Self::spec_idx(),
    ;

    fn val() -> (r: u32)
        ensures
            r == Self::spec_val(),
    ;
}

impl NlConnectorType for W1NetlinkMessage {
    open spec fn spec_idx() -> u32 {
        CONNECTOR_W1_IDX
    }

    open spec fn spec_val() -> u32 {
        CONNECTOR_W1_VAL
    }

    fn idx() -> u32 {
        CONNECTOR_W1_IDX
    }

    fn val() -> u32 {
        CONNECTOR_W1_VAL
    }
}

/// The fixed twenty-byte connector header as it stands on the wire.
#[derive(Debug, Clone, Copy, PartialEq, Eq, Structural)]
pub struct CnMsg {
    /// Family index.
    pub idx: u32,
    /// Family value.
    pub val: u32,
    /// Sequence number.
    pub seq: u32,
    /// Acknowledgement number.
    pub ack: u32,
    /// Byte length of the payload that follows the header.
    pub len: u16,
    /// Flags; not interpreted by the codec.
    pub flags: u16,
}

impl CnMsg {
    pub open spec fn spec_bytes(self) -> Seq<u8> {
        spec_u32_to_le_bytes(self.idx) + spec_u32_to_le_bytes(self.val) + spec_u32_to_le_bytes(
            self.seq,
        ) + spec_u32_to_le_bytes(self.ack) + spec_u16_to_le_bytes(self.len) + spec_u16_to_le_bytes(
            self.flags,
        )
    }

    /// Read the fixed header fields from the front of `payload`.
    pub fn parse(payload: &[u8]) -> (r: CnMsg)
        requires
            payload@.len() >= CN_HEADER_LEN,
        ensures
            r.idx == spec_u32_from_le_bytes(payload@.subrange(0, 4)),
            r.val == spec_u32_from_le_bytes(payload@.subrange(4, 8)),
            r.seq == spec_u32_from_le_bytes(payload@.subrange(8, 12)),
            r.ack == spec_u32_from_le_bytes(payload@.subrange(12, 16)),
            r.len == spec_u16_from_le_bytes(payload@.subrange(16, 18)),
            r.flags == spec_u16_from_le_bytes(payload@.subrange(18, 20)),
    {
        let idx = u32_from_le_bytes(slice_subrange(payload, 0, 4));
        let val = u32_from_le_bytes(slice_subrange(payload, 4, 8));
        let seq = u32_from_le_bytes(slice_subrange(payload, 8, 12));
        let ack = u32_from_le_bytes(slice_subrange(payload, 12, 16));
        let len = u16_from_le_bytes(slice_subrange(payload, 16, 18));
        let flags = u16_from_le_bytes(slice_subrange(payload, 18, 20));
        CnMsg { idx, val, seq, ack, len, flags }
    }

    /// Append the fixed header to `buffer`.
    pub fn write(&self, buffer: &mut Vec<u8>)
        ensures
            final(buffer)@ == old(buffer)@ + self.spec_bytes(),
    {
        let mut idx_bytes = u32_to_le_bytes(self.idx);
        buffer.append(&mut idx_bytes);
        let mut val_bytes = u32_to_le_bytes(self.val);
        buffer.append(&mut val_bytes);
        let mut seq_bytes = u32_to_le_bytes(self.seq);
        buffer.append(&mut seq_bytes);
        let mut ack_bytes = u32_to_le_bytes(self.ack);
        buffer.append(&mut ack_bytes);
        let mut len_bytes = u16_to_le_bytes(self.len);
        buffer.append(&mut len_bytes);
        let mut flags_bytes = u16_to_le_bytes(self.flags);
        buffer.append(&mut flags_bytes);
        proof {
            assert(buffer@ =~= old(buffer)@ + self.spec_bytes());
        }
    }
}

/// The caller-set fields of an envelope: sequence and acknowledgement
/// numbers and the flags word, none of them interpreted by the codec.
#[derive(Debug, Clone, Copy, PartialEq, Eq, Structural)]
pub struct NlConnectorHeader {
    pub seq: u32,
    pub ack: u32,
    pub flags: u16,
}

/// The ghost model of a connector envelope.
pub struct SpecConnectorMessage {
    pub seq: u32,
    pub ack: u32,
    pub flags: u16,
    pub payload: Seq<SpecMessage>,
}

/// A connector envelope carrying one or more w1 messages.
#[derive(Debug, Clone, PartialEq, Eq)]
pub struct NlConnectorMessage {
    pub header: NlConnectorHeader,
    pub payload: Vec<W1NetlinkMessage>,
}

impl DeepView for NlConnectorMessage {
    type V = SpecConnectorMessage;

    open spec fn deep_view(&self) -> SpecConnectorMessage {
        SpecConnectorMessage {
            seq: self.header.seq,
            ack: self.header.ack,
            flags: self.header.flags,
            payload: self.payload.deep_view(),
        }
    }
}

/// The concatenated encodings of a run of messages.
pub open spec fn spec_msgs_bytes(ms: Seq<SpecMessage>) -> Seq<u8>
    decreases ms.len(),
{
    if ms.len() == 0 {
        Seq::empty()
    } else {
        spec_msgs_bytes(ms.drop_last()) + spec_serialize_msg(ms.last())
    }
}

/// Every nested payload fits the 16-bit length field that prefixes it.
pub open spec fn spec_conn_wf(env: SpecConnectorMessage) -> bool {
    &&& forall|i: int| 0 <= i < env.payload.len() ==> spec_msg_wf(#[trigger] env.payload[i])
    &&& spec_msgs_bytes(env.payload).len() <= u16::MAX
}

/// Every message in the envelope has a defined wire format.
pub open spec fn spec_conn_serializable(env: SpecConnectorMessage) -> bool {
    forall|i: int| 0 <= i < env.payload.len() ==> spec_msg_serializable(#[trigger] env.payload[i])
}

/// An envelope whose encoding decodes back to the same value: each carried
/// message must itself round-trip.
pub open spec fn spec_conn_round_trippable(env: SpecConnectorMessage) -> bool {
    &&& spec_conn_wf(env)
    &&& forall|i: int|
        0 <= i < env.payload.len() ==> spec_msg_round_trippable(#[trigger] env.payload[i])
}

/// The wire encoding of an envelope: the registered w1 family pair, the
/// caller's sequence and acknowledgement numbers, the payload length, the
/// flags, then the messages.
pub open spec fn spec_serialize_conn(env: SpecConnectorMessage) -> Seq<u8> {
    spec_u32_to_le_bytes(CONNECTOR_W1_IDX) + spec_u32_to_le_bytes(CONNECTOR_W1_VAL)
        + spec_u32_to_le_bytes(env.seq) + spec_u32_to_le_bytes(env.ack) + spec_u16_to_le_bytes(
        spec_msgs_bytes(env.payload).len() as u16,
    ) + spec_u16_to_le_bytes(env.flags) + spec_msgs_bytes(env.payload)
}

/// Failure of decoding a connector envelope.
#[derive(Debug, Clone, Copy, PartialEq, Eq, Structural)]
pub enum DeserializeError {
    /// The transport-level message type is not the connector protocol.
    InvalidMessageType,
    /// Fewer bytes available than the fixed header requires.
    InvalidLength,
    /// The family index is not the registered one; carries the expected and
    /// the actual value.
    UnexpectedIdx(u32, u32),
    /// The family value is not the registered one; carries the expected and
    /// the actual value.
    UnexpectedVal(u32, u32),
    /// The declared payload length differs from the bytes supplied.
    InvalidPayloadLength,
    /// A message inside the payload failed to decode.
    Inner(crate::message::DeserializeError),
}

/// Ghost-level decoding of an envelope: transport type, header width,
/// family pair and declared length are validated in that order, then the
/// payload is decoded as messages until it is exhausted.
pub open spec fn spec_deserialize_conn(message_type: u16, b: Seq<u8>) -> Result<
    SpecConnectorMessage,
    DeserializeError,
> {
    if message_type != NETLINK_CONNECTOR {
        Err(DeserializeError::InvalidMessageType)
    } else if b.len() < CN_HEADER_LEN {
        Err(DeserializeError::InvalidLength)
    } else {
        let idx = spec_u32_from_le_bytes(b.subrange(0, 4));
        let val = spec_u32_from_le_bytes(b.subrange(4, 8));
        let seq = spec_u32_from_le_bytes(b.subrange(8, 12));
        let ack = spec_u32_from_le_bytes(b.subrange(12, 16));
        let len = spec_u16_from_le_bytes(b.subrange(16, 18)) as int;
        let flags = spec_u16_from_le_bytes(b.subrange(18, 20));
        if idx != CONNECTOR_W1_IDX {
            Err(DeserializeError::UnexpectedIdx(CONNECTOR_W1_IDX, idx))
        } else if val != CONNECTOR_W1_VAL {
            Err(DeserializeError::UnexpectedVal(CONNECTOR_W1_VAL, val))
        } else if len != b.len() - CN_HEADER_LEN {
            Err(DeserializeError::InvalidPayloadLength)
        } else {
            match spec_deserialize_seq::<W1NetlinkMessage>(b.skip(CN_HEADER_LEN as int)) {
                Ok(msgs) => Ok(SpecConnectorMessage { seq, ack, flags, payload: msgs }),
                Err(e) => Err(DeserializeError::Inner(e)),
            }
        }
    }
}

/// The byte-level encoding of a run of message values equals the
/// model-level encoding of their deep views.
pub proof fn lemma_msgs_bytes_deep_view(s: Seq<W1NetlinkMessage>)
    ensures
        seq_serialized_bytes(s) == spec_msgs_bytes(Seq::new(s.len(), |i: int| s[i].deep_view())),
    decreases s.len(),
{
    let dv = Seq::new(s.len(), |i: int| s[i].deep_view());
    if s.len() == 0 {
        assert(dv =~= Seq::<SpecMessage>::empty());
    } else {
        lemma_msgs_bytes_deep_view(s.drop_last());
        let dvp = Seq::new(s.drop_last().len(), |i: int| s.drop_last()[i].deep_view());
        assert(dvp =~= dv.drop_last());
        assert(s.last().spec_bytes() == spec_serialize_msg(dv.last()));
    }
}

impl NlConnectorMessage {
    /// Build an envelope around `payload` with the given sequence number;
    /// the acknowledgement number and flags start at zero.
    pub fn new(seq: u32, payload: Vec<W1NetlinkMessage>) -> (r: NlConnectorMessage)
        ensures
            r.deep_view() == (SpecConnectorMessage {
                seq,
                ack: 0,
                flags: 0,
                payload: payload.deep_view(),
            }),
    {
        NlConnectorMessage { header: NlConnectorHeader { seq, ack: 0, flags: 0 }, payload }
    }

    /// Whether every nested payload fits the length field that prefixes it;
    /// the encoding functions require it.
    pub fn check_wf(&self) -> (r: bool)
        ensures
            r == spec_conn_wf(self.deep_view()),
    {
        let ghost dv = self.payload.deep_view();
        proof {
            assert(dv =~= Seq::new(self.payload@.len(), |i: int| self.payload@[i].deep_view()));
            lemma_msgs_bytes_len(dv);
            assert(dv.take(0) =~= Seq::<SpecMessage>::empty());
        }
        let mut total: usize = 0;
        let mut i: usize = 0;
        while i < self.payload.len()
            invariant
                0 <= i <= self.payload@.len(),
                dv == self.payload.deep_view(),
                dv.len() == self.payload@.len(),
                total == spec_msgs_total_len(dv.take(i as int)),
                total <= 0xFFFF,
                forall|j: int| 0 <= j < i ==> spec_msg_wf(#[trigger] dv[j]),
            decreases self.payload@.len() - i,
        {
            match crate::message::msg_checked_len(&self.payload[i]) {
                None => {
                    proof {
                        assert(dv[i as int] == self.payload@[i as int].deep_view());
                        assert(!spec_msg_wf(dv[i as int]));
                    }
                    return false;
                },
                Some(n) => {
                    proof {
                        assert(dv[i as int] == self.payload@[i as int].deep_view());
                        assert(dv.take(i + 1).drop_last() =~= dv.take(i as int));
                        assert(dv.take(i + 1).last() == dv[i as int]);
                    }
                    total = total + n;
                    if total > 0xFFFF {
                        proof {
                            lemma_msgs_total_len_mono(dv, i + 1);
                            lemma_msgs_bytes_len(dv);
                        }
                        return false;
                    }
                },
            }
            i = i + 1;
        }
        proof {
            assert(dv.take(dv.len() as int) =~= dv);
            lemma_msgs_bytes_len(dv);
        }
        true
    }

    /// The transport-level message type an envelope travels under.
    pub fn message_type(&self) -> (r: u16)
        ensures
            r == NETLINK_CONNECTOR,
    {
        netlink_connector_protocol()
    }

    /// Decode an envelope received under the transport-level type
    /// `message_type` from `payload`.
    pub fn deserialize(message_type: u16, payload: &[u8]) -> (r: Result<
        NlConnectorMessage,
        DeserializeError,
    >)
        ensures
            match r {
                Ok(v) => spec_deserialize_conn(message_type, payload@) == Ok::<
                    SpecConnectorMessage,
                    DeserializeError,
                >(v.deep_view()),
                Err(e) => spec_deserialize_conn(message_type, payload@) == Err::<
                    SpecConnectorMessage,
                    DeserializeError,
                >(e),
            },
    {
        if message_type != netlink_connector_protocol() {
            return Err(DeserializeError::InvalidMessageType);
        }
        if payload.len() < CN_HEADER_LEN {
            return Err(DeserializeError::InvalidLength);
        }
        let header = CnMsg::parse(payload);
        if header.idx != W1NetlinkMessage::idx() {
            return Err(DeserializeError::UnexpectedIdx(W1NetlinkMessage::idx(), header.idx));
        }
        if header.val != W1NetlinkMessage::val() {
            return Err(DeserializeError::UnexpectedVal(W1NetlinkMessage::val(), header.val));
        }
        let len = header.len as usize;
        if len != payload.len() - CN_HEADER_LEN {
            return Err(DeserializeError::InvalidPayloadLength);
        }
        let rest = slice_subrange(payload, CN_HEADER_LEN, payload.len());
        match Vec::<W1NetlinkMessage>::deserialize(rest) {
            Ok((msgs, _)) => Ok(
                NlConnectorMessage {
                    header: NlConnectorHeader {
                        seq: header.seq,
                        ack: header.ack,
                        flags: header.flags,
                    },
                    payload: msgs,
                },
            ),
            Err(e) => Err(DeserializeError::Inner(e)),
        }
    }
}

impl Serializable for NlConnectorMessage {
    open spec fn wf(&self) -> bool {
        spec_conn_wf(self.deep_view())
    }

    open spec fn serializable(&self) -> bool {
        spec_conn_serializable(self.deep_view())
    }

    open spec fn spec_bytes(&self) -> Seq<u8> {
        spec_serialize_conn(self.deep_view())
    }

    fn buffer_len(&self) -> (r: Result<usize, SerializeError>) {
        proof {
            lemma_auto_spec_u16_to_from_le_bytes();
            lemma_auto_spec_u32_to_from_le_bytes();
            lemma_msgs_bytes_deep_view(self.payload@);
            assert(self.payload.deep_view() =~= Seq::new(
                self.payload@.len(),
                |i: int| self.payload@[i].deep_view(),
            ));
            assert(seq_serialized_bytes(self.payload@) == spec_msgs_bytes(
                self.payload.deep_view(),
            ));
            assert forall|i: int| 0 <= i < self.payload@.len() implies (#[trigger] self.payload@[i]).wf() by {
                assert(spec_msg_wf(self.payload.deep_view()[i]));
            }
        }
        match self.payload.buffer_len() {
            Ok(n) => {
                proof {
                    assert forall|i: int| 0 <= i < self.payload.deep_view().len() implies
                        spec_msg_serializable(#[trigger] self.payload.deep_view()[i]) by {
                        assert(self.payload@[i].serializable());
                    }
                }
                Ok(CN_HEADER_LEN + n)
            },
            Err(e) => {
                proof {
                    let i = choose|i: int|
                        0 <= i < self.payload@.len() && !((#[trigger] self.payload@[i]).serializable());
                    assert(!spec_msg_serializable(self.payload.deep_view()[i]));
                }
                Err(e)
            },
        }
    }

    fn serialize(&self, buffer: &mut Vec<u8>) -> (r: Result<(), SerializeError>) {
        proof {
            lemma_auto_spec_u16_to_from_le_bytes();
            lemma_auto_spec_u32_to_from_le_bytes();
            lemma_msgs_bytes_deep_view(self.payload@);
            assert(self.payload.deep_view() =~= Seq::new(
                self.payload@.len(),
                |i: int| self.payload@[i].deep_view(),
            ));
            assert(seq_serialized_bytes(self.payload@) == spec_msgs_bytes(
                self.payload.deep_view(),
            ));
            assert forall|i: int| 0 <= i < self.payload@.len() implies (#[trigger] self.payload@[i]).wf() by {
                assert(spec_msg_wf(self.payload.deep_view()[i]));
            }
        }
        let mut body: Vec<u8> = Vec::new();
        match self.payload.serialize(&mut body) {
            Ok(_) => {
                proof {
                    assert forall|i: int| 0 <= i < self.payload.deep_view().len() implies
                        spec_msg_serializable(#[trigger] self.payload.deep_view()[i]) by {
                        assert(self.payload@[i].serializable());
                    }
                }
            },
            Err(e) => {
                proof {
                    let i = choose|i: int|
                        0 <= i < self.payload@.len() && !((#[trigger] self.payload@[i]).serializable());
                    assert(!spec_msg_serializable(self.payload.deep_view()[i]));
                }
                return Err(e);
            },
        }
        let header = CnMsg {
            idx: W1NetlinkMessage::idx(),
            val: W1NetlinkMessage::val(),
            seq: self.header.seq,
            ack: self.header.ack,
            len: body.len() as u16,
            flags: self.header.flags,
        };
        header.write(buffer);
        buffer.append(&mut body);
        proof {
            assert(buffer@ =~= old(buffer)@ + self.spec_bytes());
        }
        Ok(())
    }
}


pub proof fn lemma_msgs_bytes_first(ms: Seq<SpecMessage>)
    requires
        ms.len() > 0,
    ensures
        spec_msgs_bytes(ms) == spec_serialize_msg(ms.first()) + spec_msgs_bytes(ms.drop_first()),
    decreases ms.len(),
{
    if ms.len() == 1 {
        assert(ms.drop_last() =~= Seq::<SpecMessage>::empty());
        assert(ms.drop_first() =~= Seq::<SpecMessage>::empty());
        assert(spec_msgs_bytes(ms) =~= spec_serialize_msg(ms.first()) + spec_msgs_bytes(
            ms.drop_first(),
        ));
    } else {
        lemma_msgs_bytes_first(ms.drop_last());
        assert(ms.drop_last().first() == ms.first());
        assert(ms.drop_last().drop_first() =~= ms.drop_first().drop_last());
        assert(ms.drop_first().last() == ms.last());
        assert(spec_msgs_bytes(ms) =~= spec_serialize_msg(ms.first()) + spec_msgs_bytes(
            ms.drop_first(),
        ));
    }
}

/// Decoding the concatenation of encoded messages consumes every byte and
/// yields the messages back in their original order.
pub proof fn lemma_msgs_round_trip(ms: Seq<SpecMessage>)
    requires
        forall|i: int| 0 <= i < ms.len() ==> spec_msg_round_trippable(#[trigger] ms[i]),
    ensures
        spec_deserialize_seq::<W1NetlinkMessage>(spec_msgs_bytes(ms)) == Ok::<
            Seq<SpecMessage>,
            crate::message::DeserializeError,
        >(ms),
    decreases ms.len(),
{
    lemma_auto_spec_u16_to_from_le_bytes();
    lemma_auto_spec_u64_to_from_le_bytes();
    let b = spec_msgs_bytes(ms);
    if ms.len() == 0 {
        assert(b =~= Seq::<u8>::empty());
        assert(Seq::<SpecMessage>::empty() =~= ms);
    } else {
        lemma_msgs_bytes_first(ms);
        let m0 = ms.first();
        let rest_bytes = spec_msgs_bytes(ms.drop_first());
        lemma_msg_parse_prefix(m0, rest_bytes);
        let n0 = spec_serialize_msg(m0).len() as int;
        assert(b.skip(n0) =~= rest_bytes);
        assert forall|i: int| 0 <= i < ms.drop_first().len() implies spec_msg_round_trippable(
            #[trigger] ms.drop_first()[i],
        ) by {
            assert(ms.drop_first()[i] == ms[i + 1]);
        }
        lemma_msgs_round_trip(ms.drop_first());
        assert(seq![m0] + ms.drop_first() =~= ms);
    }
}

/// Round-trip at the envelope layer: decoding an encoded envelope, received
/// under the connector protocol number, yields the envelope back.
pub proof fn lemma_conn_round_trip(env: SpecConnectorMessage)
    requires
        spec_conn_round_trippable(env),
    ensures
        spec_deserialize_conn(NETLINK_CONNECTOR, spec_serialize_conn(env)) == Ok::<
            SpecConnectorMessage,
            DeserializeError,
        >(env),
{
    lemma_auto_spec_u16_to_from_le_bytes();
    lemma_auto_spec_u32_to_from_le_bytes();
    let b = spec_serialize_conn(env);
    let body = spec_msgs_bytes(env.payload);
    assert(b.subrange(0, 4) =~= spec_u32_to_le_bytes(CONNECTOR_W1_IDX));
    assert(b.subrange(4, 8) =~= spec_u32_to_le_bytes(CONNECTOR_W1_VAL));
    assert(b.subrange(8, 12) =~= spec_u32_to_le_bytes(env.seq));
    assert(b.subrange(12, 16) =~= spec_u32_to_le_bytes(env.ack));
    assert(b.subrange(16, 18) =~= spec_u16_to_le_bytes(body.len() as u16));
    assert(b.subrange(18, 20) =~= spec_u16_to_le_bytes(env.flags));
    assert(b.skip(CN_HEADER_LEN as int) =~= body);
    lemma_msgs_round_trip(env.payload);
}

/// Length invariant at the envelope layer: the `len` field written at
/// offsets sixteen and seventeen equals the byte length of the payload that
/// follows the fixed header.
pub proof fn lemma_conn_len_field(env: SpecConnectorMessage)
    requires
        spec_conn_wf(env),
    ensures
        spec_serialize_conn(env).len() == CN_HEADER_LEN + spec_msgs_bytes(env.payload).len(),
        spec_u16_from_le_bytes(spec_serialize_conn(env).subrange(16, 18)) == spec_msgs_bytes(
            env.payload,
        ).len(),
{
    lemma_auto_spec_u16_to_from_le_bytes();
    lemma_auto_spec_u32_to_from_le_bytes();
    assert(spec_serialize_conn(env).subrange(16, 18) =~= spec_u16_to_le_bytes(
        spec_msgs_bytes(env.payload).len() as u16,
    ));
}

/// Family validation: an envelope whose family pair is not the registered
/// w1 pair always fails with the matching mismatch error, which carries the
/// expected and the actual value; the payload is never interpreted.
pub proof fn lemma_family_validation(b: Seq<u8>)
    requires
        b.len() >= CN_HEADER_LEN,
    ensures
        spec_u32_from_le_bytes(b.subrange(0, 4)) != CONNECTOR_W1_IDX ==> spec_deserialize_conn(
            NETLINK_CONNECTOR,
            b,
        ) == Err::<SpecConnectorMessage, DeserializeError>(
            DeserializeError::UnexpectedIdx(
                CONNECTOR_W1_IDX,
                spec_u32_from_le_bytes(b.subrange(0, 4)),
            ),
        ),
        (spec_u32_from_le_bytes(b.subrange(0, 4)) == CONNECTOR_W1_IDX && spec_u32_from_le_bytes(
            b.subrange(4, 8),
        ) != CONNECTOR_W1_VAL) ==> spec_deserialize_conn(NETLINK_CONNECTOR, b) == Err::<
            SpecConnectorMessage,
            DeserializeError,
        >(
            DeserializeError::UnexpectedVal(
                CONNECTOR_W1_VAL,
                spec_u32_from_le_bytes(b.subrange(4, 8)),
            ),
        ),
{
}

/// Truncation rejection: a buffer shorter than the fixed connector header
/// fails with a length error, and a transport type other than the connector
/// protocol is rejected before anything is read.
pub proof fn lemma_conn_header_validation(message_type: u16, b: Seq<u8>)
    ensures
        message_type != NETLINK_CONNECTOR ==> spec_deserialize_conn(message_type, b) == Err::<
            SpecConnectorMessage,
            DeserializeError,
        >(DeserializeError::InvalidMessageType),
        (message_type == NETLINK_CONNECTOR && b.len() < CN_HEADER_LEN) ==> spec_deserialize_conn(
            message_type,
            b,
        ) == Err::<SpecConnectorMessage, DeserializeError>(DeserializeError::InvalidLength),
{
}


/// The total wire length of a run of messages: a fixed header plus the
/// body, message by message.
pub open spec fn spec_msgs_total_len(ms: Seq<SpecMessage>) -> int
    decreases ms.len(),
{
    if ms.len() == 0 {
        0
    } else {
        spec_msgs_total_len(ms.drop_last()) + crate::message::MSG_HEADER_LEN as int
            + crate::message::spec_msg_body(ms.last()).len()
    }
}

pub proof fn lemma_msgs_bytes_len(ms: Seq<SpecMessage>)
    ensures
        spec_msgs_bytes(ms).len() == spec_msgs_total_len(ms),
    decreases ms.len(),
{
    lemma_auto_spec_u16_to_from_le_bytes();
    lemma_auto_spec_u64_to_from_le_bytes();
    if ms.len() > 0 {
        lemma_msgs_bytes_len(ms.drop_last());
    }
}

pub proof fn lemma_msgs_total_len_mono(ms: Seq<SpecMessage>, k: int)
    requires
        0 <= k <= ms.len(),
    ensures
        spec_msgs_total_len(ms) >= spec_msgs_total_len(ms.take(k)),
    decreases ms.len() - k,
{
    if k == ms.len() {
        assert(ms.take(k) =~= ms);
    } else {
        lemma_msgs_total_len_mono(ms, k + 1);
        assert(ms.take(k + 1).drop_last() =~= ms.take(k));
        assert(ms.take(k + 1).last() == ms[k]);
    }
}

} // verus!
