//! The fetch request: construction, size, and its wire form.
//!
//! Wire form, all integers big-endian:
//! topic length (2 bytes), topic in UTF-8, partition (4), offset (8), max size (4).
use bytes::Bytes;
use vstd::prelude::*;
use vstd::utf8::{decode_utf8, decode_utf8_encode_utf8, encode_utf8, encode_utf8_decode_utf8, encode_utf8_valid_utf8, valid_utf8};

use crate::wire::{
    be_u16, be_u32, be_u64, get_u16, get_u32, get_u64, lemma_be_u16_of_bytes,
    lemma_be_u32_of_bytes, lemma_be_u64_of_bytes, lemma_u16_round_trip,
    lemma_u32_round_trip, lemma_u64_round_trip, put_u16, put_u32, put_u64, u16_of_be, u32_of_be,
    u64_of_be,
};

verus! {

/// The longest topic, in UTF-8 bytes, that the two-byte length prefix can count.
pub const MAX_TOPIC_LEN: usize = 65535;

/// Bytes that follow the topic: partition, offset and max size.
pub const FIXED_TAIL_LEN: usize = 16;

/// Why a fetch request could not be made.
#[derive(Debug, Clone, Copy, PartialEq, Eq, Structural)]
pub enum FetchCreationError {
    /// The topic does not fit the two-byte length prefix.
    TopicTooLong,
    /// The bytes are not exactly one encoded request.
    MalformedBytes,
}

/// What a fetch request holds.
pub ghost struct FetchModel {
    pub topic: Seq<char>,
    pub partition: u32,
    pub offset: u64,
    pub max_size: u32,
}

impl FetchModel {
    /// The topic as it stands on the wire.
    pub open spec fn topic_bytes(self) -> Seq<u8> {
        encode_utf8(self.topic)
    }

    /// The topic's length fits the length prefix.
    pub open spec fn valid(self) -> bool {
        self.topic_bytes().len() <= MAX_TOPIC_LEN
    }

    /// Length of the encoded request.
    pub open spec fn wire_size(self) -> int {
        2 + self.topic_bytes().len() as int + 4 + 8 + 4
    }

    /// The encoded request.
    pub open spec fn encoded(self) -> Seq<u8> {
        be_u16(self.topic_bytes().len() as u16) + self.topic_bytes() + be_u32(self.partition)
            + be_u64(self.offset) + be_u32(self.max_size)
    }
}

/// The topic length that the first two bytes of `b` announce.
pub open spec fn announced_topic_len(b: Seq<u8>) -> int {
    u16_of_be(b) as int
}

/// `b` holds a length prefix, and exactly as many bytes as it announces.
pub open spec fn is_framed(b: Seq<u8>) -> bool {
    &&& b.len() >= 2
    &&& b.len() == 2 + announced_topic_len(b) + FIXED_TAIL_LEN
}

/// The bytes of `b` that a framed buffer gives to the topic.
pub open spec fn topic_region(b: Seq<u8>) -> Seq<u8> {
    b.subrange(2, 2 + announced_topic_len(b))
}

/// `b` is exactly one encoded request.
pub open spec fn is_decodable(b: Seq<u8>) -> bool {
    is_framed(b) && valid_utf8(topic_region(b))
}

/// The request that a decodable `b` encodes.
pub open spec fn decoded(b: Seq<u8>) -> FetchModel {
    let n = announced_topic_len(b);
    FetchModel {
        topic: decode_utf8(topic_region(b)),
        partition: u32_of_be(b.subrange(2 + n, 6 + n)),
        offset: u64_of_be(b.subrange(6 + n, 14 + n)),
        max_size: u32_of_be(b.subrange(14 + n, 18 + n)),
    }
}

/// The contents of a `Bytes` buffer.
pub uninterp spec fn bytes_content(b: Bytes) -> Seq<u8>;

#[verifier::external_type_specification]
#[verifier::external_body]
pub struct ExBytes(Bytes);

/// Relies on `<Bytes as AsRef<[u8]>>::as_ref`: the slice is the buffer's contents.
#[verifier::external_body]
fn bytes_as_slice(b: &Bytes) -> (r: &[u8])
    ensures
        r@ == bytes_content(*b),
{
    b.as_ref()
}

/// Relies on `<Bytes as From<Vec<u8>>>::from`: the buffer holds the vector's bytes.
#[verifier::external_body]
fn bytes_from_vec(v: Vec<u8>) -> (r: Bytes)
    ensures
        bytes_content(r) == v@,
{
    Bytes::from(v)
}

/// Relies on `String::from_utf8`: it accepts exactly the valid UTF-8
/// sequences, and the string holds the characters they encode.
#[verifier::external_body]
fn string_from_utf8(v: Vec<u8>) -> (r: Option<String>)
    ensures
        r is Some <==> valid_utf8(v@),
        r matches Some(s) ==> s@ == decode_utf8(v@),
{
    String::from_utf8(v).ok()
}

/// Length of `s` in UTF-8 bytes.
fn utf8_len(s: &str) -> (r: usize)
    ensures
        r == encode_utf8(s@).len(),
{
    s.as_bytes().len()
}

/// A request for the records of one topic partition, from an offset on, up
/// to a size.
#[derive(Debug)]
pub struct Fetch {
    topic: String,
    partition: u32,
    offset: u64,
    max_size: u32,
}

impl View for Fetch {
    type V = FetchModel;

    closed spec fn view(&self) -> FetchModel {
        FetchModel {
            topic: self.topic@,
            partition: self.partition,
            offset: self.offset,
            max_size: self.max_size,
        }
    }
}

impl Fetch {
    #[verifier::type_invariant]
    spec fn topic_fits(&self) -> bool {
        self@.valid()
    }

    /// Makes a request, unless the topic is longer than the length prefix can count.
    pub fn new(topic: String, partition: u32, offset: u64, size: u32) -> (r: Result<
        Fetch,
        FetchCreationError,
    >)
        ensures
            r is Ok <==> encode_utf8(topic@).len() <= MAX_TOPIC_LEN,
            r matches Ok(f) ==> f@ == (FetchModel {
                topic: topic@,
                partition,
                offset,
                max_size: size,
            }),
            r matches Err(e) ==> e == FetchCreationError::TopicTooLong,
    {
        if utf8_len(topic.as_str()) > MAX_TOPIC_LEN {
            return Err(FetchCreationError::TopicTooLong);
        }
        Ok(Fetch { topic, partition, offset, max_size: size })
    }

    /// Reads a request from a buffer that holds exactly one.
    pub fn decode(buf: &[u8]) -> (r: Result<Fetch, FetchCreationError>)
        ensures
            r is Ok <==> is_decodable(buf@),
            r matches Ok(f) ==> f@ == decoded(buf@),
            r matches Err(e) ==> e == FetchCreationError::MalformedBytes,
    {
        if buf.len() < 2 {
            return Err(FetchCreationError::MalformedBytes);
        }
        let n = get_u16(buf, 0) as usize;
        assert(n == announced_topic_len(buf@));
        if buf.len() != 2 + n + FIXED_TAIL_LEN {
            return Err(FetchCreationError::MalformedBytes);
        }
        let mut topic_bytes: Vec<u8> = Vec::with_capacity(n);
        let end = 2 + n;
        let mut i: usize = 2;
        while i < end
            invariant
                end == 2 + n,
                2 <= i <= end,
                buf@.len() == end + FIXED_TAIL_LEN,
                topic_bytes@ == buf@.subrange(2, i as int),
            decreases end - i,
        {
            topic_bytes.push(buf[i]);
            i += 1;
            assert(topic_bytes@ =~= buf@.subrange(2, i as int));
        }
        let ghost region = topic_bytes@;
        let topic = match string_from_utf8(topic_bytes) {
            Some(s) => s,
            None => return Err(FetchCreationError::MalformedBytes),
        };
        proof {
            decode_utf8_encode_utf8(region);
        }
        let partition = get_u32(buf, end);
        let offset = get_u64(buf, end + 4);
        let max_size = get_u32(buf, end + 12);
        Ok(Fetch { topic, partition, offset, max_size })
    }

    /// Reads a request from a buffer that holds exactly one.
    pub fn from_bytes(bytes: Bytes) -> (r: Result<Fetch, FetchCreationError>)
        ensures
            r is Ok <==> is_decodable(bytes_content(bytes)),
            r matches Ok(f) ==> f@ == decoded(bytes_content(bytes)),
            r matches Err(e) ==> e == FetchCreationError::MalformedBytes,
    {
        Fetch::decode(bytes_as_slice(&bytes))
    }

    /// The request's wire form, in a vector sized to it.
    pub fn encode(&self) -> (r: Vec<u8>)
        ensures
            self@.valid(),
            r@ == self@.encoded(),
    {
        proof {
            use_type_invariant(self);
        }
        let topic = self.topic.as_str().as_bytes();
        let n = topic.len();
        let mut buf: Vec<u8> = Vec::with_capacity(self.size());
        put_u16(&mut buf, n as u16);
        let mut i: usize = 0;
        while i < n
            invariant
                n == topic@.len(),
                i <= n,
                buf@ == be_u16(n as u16) + topic@.subrange(0, i as int),
            decreases n - i,
        {
            buf.push(topic[i]);
            i += 1;
            assert(buf@ =~= be_u16(n as u16) + topic@.subrange(0, i as int));
        }
        assert(topic@.subrange(0, n as int) =~= topic@);
        put_u32(&mut buf, self.partition);
        put_u64(&mut buf, self.offset);
        put_u32(&mut buf, self.max_size);
        buf
    }

    /// The request's wire form.
    pub fn to_bytes(&self) -> (r: Bytes)
        ensures
            self@.valid(),
            bytes_content(r) == self@.encoded(),
    {
        bytes_from_vec(self.encode())
    }

    /// Length of the request's wire form.
    pub fn size(&self) -> (r: usize)
        ensures
            self@.valid(),
            r == self@.wire_size(),
    {
        proof {
            use_type_invariant(self);
        }
        2 + utf8_len(self.topic.as_str()) + 4 + 8 + 4
    }

    /// The topic.
    pub fn topic(&self) -> (r: &str)
        ensures
            r@ == self@.topic,
    {
        self.topic.as_str()
    }

    /// The partition index.
    pub fn partition(&self) -> (r: u32)
        ensures
            r == self@.partition,
    {
        self.partition
    }

    /// The first offset asked for.
    pub fn offset(&self) -> (r: u64)
        ensures
            r == self@.offset,
    {
        self.offset
    }

    /// The most bytes the reply may hold.
    pub fn max_size(&self) -> (r: u32)
        ensures
            r == self@.max_size,
    {
        self.max_size
    }
}

/// Decoding an encoded request gives it back, field by field.
pub proof fn lemma_round_trip(m: FetchModel)
    requires
        m.valid(),
    ensures
        is_decodable(m.encoded()),
        decoded(m.encoded()) == m,
{
    let t = m.topic_bytes();
    let n = t.len() as int;
    let b = m.encoded();
    lemma_u16_round_trip(n as u16);
    lemma_u32_round_trip(m.partition);
    lemma_u64_round_trip(m.offset);
    lemma_u32_round_trip(m.max_size);
    assert(b.subrange(0, 2) =~= be_u16(n as u16));
    assert(announced_topic_len(b) == n);
    assert(topic_region(b) =~= t);
    assert(b.subrange(2 + n, 6 + n) =~= be_u32(m.partition));
    assert(b.subrange(6 + n, 14 + n) =~= be_u64(m.offset));
    assert(b.subrange(14 + n, 18 + n) =~= be_u32(m.max_size));
    encode_utf8_valid_utf8(m.topic);
    encode_utf8_decode_utf8(m.topic);
}

/// Encoding what was decoded gives the same bytes: each request has one wire form.
pub proof fn lemma_decode_then_encode(b: Seq<u8>)
    requires
        is_decodable(b),
    ensures
        decoded(b).valid(),
        decoded(b).encoded() == b,
{
    let n = announced_topic_len(b);
    let m = decoded(b);
    decode_utf8_encode_utf8(topic_region(b));
    assert(m.topic_bytes() == topic_region(b));
    lemma_be_u16_of_bytes(b.subrange(0, 2));
    assert(u16_of_be(b.subrange(0, 2)) == u16_of_be(b));
    lemma_be_u32_of_bytes(b.subrange(2 + n, 6 + n));
    lemma_be_u64_of_bytes(b.subrange(6 + n, 14 + n));
    lemma_be_u32_of_bytes(b.subrange(14 + n, 18 + n));
    assert(m.encoded() =~= b);
}

/// The size of a request is the length of its wire form: 18 bytes besides the topic.
pub proof fn lemma_size_is_encoded_len(m: FetchModel)
    ensures
        m.encoded().len() == m.wire_size(),
        m.wire_size() == 18 + m.topic_bytes().len(),
{
}

/// No buffer shorter than the fixed fields is a request.
pub proof fn lemma_short_rejected(b: Seq<u8>)
    requires
        b.len() < 2 + FIXED_TAIL_LEN,
    ensures
        !is_decodable(b),
{
}

/// Cutting a request short, or adding bytes after it, leaves no request.
pub proof fn lemma_cut_or_extended_rejected(b: Seq<u8>, k: int, extra: Seq<u8>)
    requires
        is_decodable(b),
        0 <= k < b.len(),
        extra.len() > 0,
    ensures
        !is_decodable(b.take(k)),
        !is_decodable(b + extra),
{
    let c = b.take(k);
    let e = b + extra;
    if c.len() >= 2 {
        assert(c[0] == b[0] && c[1] == b[1]);
    }
    assert(e[0] == b[0] && e[1] == b[1]);
}

} // verus!
