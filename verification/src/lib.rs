//! Codec for the Linux 1-Wire (w1) netlink connector protocol.
//!
//! The wire format nests three layers, each a fixed little-endian header
//! followed by a length-prefixed payload:
//!
//! - a connector envelope ([`connector::NlConnectorMessage`]) carrying a
//!   protocol-family pair and one or more messages,
//! - a w1 message ([`message::W1NetlinkMessage`]) describing one bus event,
//!   command batch or master listing,
//! - a w1 command ([`command::W1NetlinkCommand`]) describing one operation on
//!   a bus master or slave device.
//!
//! Encoding computes every `len` field bottom-up from the payload it
//! prefixes; decoding validates each header before handing the declared
//! number of payload bytes to the layer below. Both directions are specified
//! against ghost models of the three layers, and the round-trip and
//! validation laws are stated as proof functions next to the codecs.

use vstd::prelude::*;

pub mod command;
pub mod connector;
pub mod message;

verus! {

/// A byte held a value outside the range the protocol defines for its field.
#[derive(Debug, Clone, Copy, PartialEq, Eq, Structural)]
pub struct InvalidValue(pub u8);

/// A buffer was shorter than a fixed-width structure requires.
#[derive(Debug, Clone, Copy, PartialEq, Eq, Structural)]
pub struct InvalidLength(pub usize);

/// Failure of the encoding path. The protocol leaves the payload shape of a
/// few variants undefined, and encoding them is refused rather than guessed.
#[derive(Debug, Clone, Copy, PartialEq, Eq, Structural)]
pub enum SerializeError {
    NotImplemented,
}

/// A value with a defined wire encoding.
///
/// `spec_bytes` is the encoding; `serializable` says whether the value's
/// variant has a defined wire format at all (encoding the others fails with
/// [`SerializeError::NotImplemented`]); `wf` bounds the payload sizes so that
/// every length fits the `len` field that prefixes it.
pub trait Serializable {
    /// Payload sizes fit the length fields of the encoding.
    spec fn wf(&self) -> bool;

    /// The value's variant has a defined wire format.
    spec fn serializable(&self) -> bool;

    /// The wire encoding of the value.
    spec fn spec_bytes(&self) -> Seq<u8>;

    /// The number of bytes `serialize` appends.
    fn buffer_len(&self) -> (r: Result<usize, SerializeError>)
        requires
            self.wf(),
        ensures
            match r {
                Ok(n) => self.serializable() && n == self.spec_bytes().len(),
                Err(e) => !self.serializable() && e == SerializeError::NotImplemented,
            },
    ;

    /// Append the wire encoding of the value to `buffer`. On failure the
    /// buffer is left as it was.
    fn serialize(&self, buffer: &mut Vec<u8>) -> (r: Result<(), SerializeError>)
        requires
            self.wf(),
        ensures
            match r {
                Ok(_) => self.serializable() && final(buffer)@ == old(buffer)@ + self.spec_bytes(),
                Err(e) => !self.serializable() && e == SerializeError::NotImplemented
                    && final(buffer)@ == old(buffer)@,
            },
    ;
}

/// A value that can be decoded from the front of a byte buffer, returning
/// the value and the number of bytes consumed.
///
/// The result is pinned to the ghost-level decoder `spec_deserialize`, which
/// either consumes a positive number of bytes or fails: sequences of records
/// can therefore be decoded until a declared length is exhausted without
/// stalling on a record of width zero.
pub trait Deserializable: Sized + DeepView {
    type Error;

    /// The ghost-level decoder the executable one is held to.
    spec fn spec_deserialize(payload: Seq<u8>) -> Result<(Self::V, int), Self::Error>;

    /// A successful decode of a non-empty buffer consumes between one byte
    /// and the whole buffer.
    proof fn lemma_deserialize_progress(payload: Seq<u8>)
        ensures
            payload.len() > 0 ==> (Self::spec_deserialize(payload) matches Ok((v, n))
                ==> 1 <= n <= payload.len()),
    ;

    /// Decode one value from the front of `payload`.
    fn deserialize(payload: &[u8]) -> (r: Result<(Self, usize), Self::Error>)
        ensures
            match r {
                Ok((v, n)) => Self::spec_deserialize(payload@)
                    == Ok::<(Self::V, int), Self::Error>((v.deep_view(), n as int)),
                Err(e) => Self::spec_deserialize(payload@)
                    == Err::<(Self::V, int), Self::Error>(e),
            },
    ;
}

/// The concatenated wire encodings of a sequence of values.
pub open spec fn seq_serialized_bytes<T: Serializable>(s: Seq<T>) -> Seq<u8>
    decreases s.len(),
{
    if s.len() == 0 {
        Seq::empty()
    } else {
        seq_serialized_bytes(s.drop_last()) + s.last().spec_bytes()
    }
}

pub proof fn lemma_seq_serialized_bytes_push<T: Serializable>(s: Seq<T>, x: T)
    ensures
        seq_serialized_bytes(s.push(x)) == seq_serialized_bytes(s) + x.spec_bytes(),
{
    assert(s.push(x).drop_last() =~= s);
    assert(s.push(x).last() == x);
}

pub proof fn lemma_seq_serialized_bytes_first<T: Serializable>(s: Seq<T>)
    requires
        s.len() > 0,
    ensures
        seq_serialized_bytes(s) == s.first().spec_bytes() + seq_serialized_bytes(s.drop_first()),
    decreases s.len(),
{
    if s.len() == 1 {
        assert(s.drop_last() =~= Seq::<T>::empty());
        assert(s.drop_first() =~= Seq::<T>::empty());
        assert(s.last() == s.first());
        assert(seq_serialized_bytes(s) =~= s.first().spec_bytes()
            + seq_serialized_bytes(s.drop_first()));
    } else {
        lemma_seq_serialized_bytes_first(s.drop_last());
        assert(s.drop_last().first() == s.first());
        assert(s.drop_last().drop_first() =~= s.drop_first().drop_last());
        assert(s.drop_first().last() == s.last());
        assert(seq_serialized_bytes(s) =~= s.first().spec_bytes()
            + seq_serialized_bytes(s.drop_first()));
    }
}

/// The encoding of a sequence splits at any index into the encodings of the
/// two halves.
pub proof fn lemma_seq_serialized_bytes_split<T: Serializable>(s: Seq<T>, i: int)
    requires
        0 <= i <= s.len(),
    ensures
        seq_serialized_bytes(s) == seq_serialized_bytes(s.take(i))
            + seq_serialized_bytes(s.skip(i)),
    decreases s.len() - i,
{
    if i == s.len() {
        assert(s.take(i) =~= s);
        assert(s.skip(i) =~= Seq::<T>::empty());
        assert(seq_serialized_bytes(s) =~= seq_serialized_bytes(s.take(i))
            + seq_serialized_bytes(s.skip(i)));
    } else {
        lemma_seq_serialized_bytes_split(s, i + 1);
        assert(s.take(i + 1) =~= s.take(i).push(s[i]));
        lemma_seq_serialized_bytes_push(s.take(i), s[i]);
        lemma_seq_serialized_bytes_first(s.skip(i));
        assert(s.skip(i).first() == s[i]);
        assert(s.skip(i).drop_first() =~= s.skip(i + 1));
        assert(seq_serialized_bytes(s) =~= seq_serialized_bytes(s.take(i))
            + seq_serialized_bytes(s.skip(i)));
    }
}

/// Ghost-level decoding of records from the front of a buffer until it is
/// exhausted; any failure of a record aborts the whole sequence.
pub open spec fn spec_deserialize_seq<T: Deserializable>(payload: Seq<u8>) -> Result<
    Seq<T::V>,
    T::Error,
>
    decreases payload.len(),
{
    if payload.len() == 0 {
        Ok(Seq::empty())
    } else {
        match T::spec_deserialize(payload) {
            Err(e) => Err(e),
            Ok((v, n)) => if 1 <= n <= payload.len() {
                match spec_deserialize_seq::<T>(payload.skip(n)) {
                    Err(e) => Err(e),
                    Ok(rest) => Ok(seq![v] + rest),
                }
            } else {
                // ruled out by lemma_deserialize_progress
                arbitrary()
            },
        }
    }
}

impl<T: Serializable> Serializable for Vec<T> {
    open spec fn wf(&self) -> bool {
        &&& forall|i: int| 0 <= i < self@.len() ==> #[trigger] self@[i].wf()
        &&& seq_serialized_bytes(self@).len() <= usize::MAX
    }

    open spec fn serializable(&self) -> bool {
        forall|i: int| 0 <= i < self@.len() ==> #[trigger] self@[i].serializable()
    }

    open spec fn spec_bytes(&self) -> Seq<u8> {
        seq_serialized_bytes(self@)
    }

    fn buffer_len(&self) -> (r: Result<usize, SerializeError>) {
        let mut total: usize = 0;
        let mut i: usize = 0;
        while i < self.len()
            invariant
                0 <= i <= self@.len(),
                self.wf(),
                total == seq_serialized_bytes(self@.take(i as int)).len(),
                forall|j: int| 0 <= j < i ==> #[trigger] self@[j].serializable(),
            decreases self@.len() - i,
        {
            let ghost prefix = self@.take(i as int);
            match (&self[i]).buffer_len() {
                Ok(n) => {
                    proof {
                        lemma_seq_serialized_bytes_push(prefix, self@[i as int]);
                        assert(self@.take(i + 1) =~= prefix.push(self@[i as int]));
                        lemma_seq_serialized_bytes_split(self@, i + 1);
                    }
                    total = total + n;
                },
                Err(e) => {
                    return Err(e);
                },
            }
            i = i + 1;
        }
        proof {
            assert(self@.take(i as int) =~= self@);
        }
        Ok(total)
    }

    fn serialize(&self, buffer: &mut Vec<u8>) -> (r: Result<(), SerializeError>) {
        let mut tmp: Vec<u8> = Vec::new();
        let mut i: usize = 0;
        while i < self.len()
            invariant
                0 <= i <= self@.len(),
                self.wf(),
                buffer@ == old(buffer)@,
                tmp@ == seq_serialized_bytes(self@.take(i as int)),
                forall|j: int| 0 <= j < i ==> #[trigger] self@[j].serializable(),
            decreases self@.len() - i,
        {
            let ghost prefix = self@.take(i as int);
            match (&self[i]).serialize(&mut tmp) {
                Ok(_) => {
                    proof {
                        lemma_seq_serialized_bytes_push(prefix, self@[i as int]);
                        assert(self@.take(i + 1) =~= prefix.push(self@[i as int]));
                    }
                },
                Err(e) => {
                    return Err(e);
                },
            }
            i = i + 1;
        }
        proof {
            assert(self@.take(i as int) =~= self@);
        }
        buffer.append(&mut tmp);
        Ok(())
    }
}

impl<T: Deserializable> Deserializable for Vec<T> {
    type Error = T::Error;

    open spec fn spec_deserialize(payload: Seq<u8>) -> Result<(Seq<T::V>, int), T::Error> {
        match spec_deserialize_seq::<T>(payload) {
            Ok(s) => Ok((s, payload.len() as int)),
            Err(e) => Err(e),
        }
    }

    proof fn lemma_deserialize_progress(payload: Seq<u8>) {
    }

    fn deserialize(payload: &[u8]) -> (r: Result<(Self, usize), T::Error>) {
        let ghost full = spec_deserialize_seq::<T>(payload@);
        let mut items: Vec<T> = Vec::new();
        let mut cursor: usize = 0;
        proof {
            assert(payload@.skip(0) =~= payload@);
            assert(items.deep_view() =~= Seq::<T::V>::empty());
            match spec_deserialize_seq::<T>(payload@) {
                Ok(rest) => {
                    assert(items.deep_view() + rest =~= rest);
                },
                Err(e) => {},
            }
        }
        while cursor < payload.len()
            invariant
                0 <= cursor <= payload@.len(),
                full == spec_deserialize_seq::<T>(payload@),
                match spec_deserialize_seq::<T>(payload@.skip(cursor as int)) {
                    Ok(rest) => full == Ok::<Seq<T::V>, T::Error>(items.deep_view() + rest),
                    Err(e) => full == Err::<Seq<T::V>, T::Error>(e),
                },
            decreases payload@.len() - cursor,
        {
            let ghost remaining = payload@.skip(cursor as int);
            let rest_slice = vstd::slice::slice_subrange(payload, cursor, payload.len());
            match T::deserialize(rest_slice) {
                Err(e) => {
                    proof {
                        assert(rest_slice@ =~= remaining);
                        assert(T::spec_deserialize(remaining) == Err::<(T::V, int), T::Error>(e));
                        assert(spec_deserialize_seq::<T>(remaining) == Err::<Seq<T::V>, T::Error>(e));
                        assert(full == Err::<Seq<T::V>, T::Error>(e));
                        assert(Self::spec_deserialize(payload@) == Err::<(Seq<T::V>, int), T::Error>(e));
                    }
                    return Err(e);
                },
                Ok((item, n)) => {
                    proof {
                        assert(rest_slice@ =~= remaining);
                        T::lemma_deserialize_progress(remaining);
                        assert(remaining.skip(n as int) =~= payload@.skip(cursor + n));
                    }
                    let ghost items_before = items.deep_view();
                    let ghost item_v = item.deep_view();
                    items.push(item);
                    proof {
                        assert(items.deep_view() =~= items_before.push(item_v));
                        match spec_deserialize_seq::<T>(payload@.skip(cursor + n)) {
                            Ok(rest2) => {
                                assert(spec_deserialize_seq::<T>(remaining)
                                    == Ok::<Seq<T::V>, T::Error>(seq![item_v] + rest2));
                                assert(items_before + (seq![item_v] + rest2)
                                    =~= items.deep_view() + rest2);
                            },
                            Err(e2) => {
                                assert(spec_deserialize_seq::<T>(remaining)
                                    == Err::<Seq<T::V>, T::Error>(e2));
                            },
                        }
                    }
                    cursor = cursor + n;
                },
            }
        }
        proof {
            assert(payload@.skip(cursor as int) =~= Seq::<u8>::empty());
            assert(spec_deserialize_seq::<T>(payload@.skip(cursor as int))
                == Ok::<Seq<T::V>, T::Error>(Seq::empty()));
            assert(items.deep_view() + Seq::<T::V>::empty() =~= items.deep_view());
            assert(full == Ok::<Seq<T::V>, T::Error>(items.deep_view()));
            assert(cursor == payload@.len());
            assert(Self::spec_deserialize(payload@) == Ok::<(Seq<T::V>, int), T::Error>(
                (items.deep_view(), payload@.len() as int),
            ));
        }
        Ok((items, cursor))
    }
}

/// A record with no payload bytes: decoding consumes nothing and cannot
/// fail.
#[derive(Debug, Clone, Copy, PartialEq, Eq, Structural)]
pub struct Empty;

impl DeepView for Empty {
    type V = Empty;

    open spec fn deep_view(&self) -> Empty {
        *self
    }
}

impl Empty {
    pub fn deserialize(payload: &[u8]) -> (r: Result<(Empty, usize), InvalidValue>)
        ensures
            r == Ok::<(Empty, usize), InvalidValue>((Empty, 0)),
    {
        Ok((Empty, 0))
    }
}

} // verus!
