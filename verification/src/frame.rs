//! Wire format of the group frame: one datagram of 28 bytes that claims
//! membership of a group since a given ghost time.

use vstd::prelude::*;
use vstd::string::StringSliceAdditionalSpecFns;

verus! {

/// Longest group name, in bytes of UTF-8.
pub const MAX_GROUP_ID_LENGTH: usize = 15;

/// Length of an encoded frame.
pub const FRAME_LENGTH: usize = 28;

/// The only protocol version this implementation speaks.
pub const PROTOCOL_VERSION: u8 = 1;

/// Errors of the group layer.
#[derive(Debug, Clone, Copy, PartialEq, Eq)]
pub enum Error {
    /// The group name does not fit into a frame.
    GroupIdTooLong,
}

/// Why a datagram could not be read as a frame.
#[derive(Debug, Clone, Copy, PartialEq, Eq)]
pub enum DecodeError {
    /// Fewer bytes than a frame has.
    Truncated,
}

/// Parsed network packet describing the synchronisation state of one group.
#[derive(Debug, Clone, Copy, PartialEq, Eq)]
pub struct GroupFrame {
    /// Magic sequence distinguishing our packets.
    pub magic: [u8; 4],
    /// Version of the packet.
    pub version: u8,
    /// Group name, zero padded.
    pub group_id: [u8; 15],
    /// Ghost time in microseconds at which the group was started.
    pub timestamp: i64,
}

/// The bytes `"grup"`.
pub open spec fn magic_bytes() -> Seq<u8> {
    seq![0x67u8, 0x72u8, 0x75u8, 0x70u8]
}

/// The eight bytes of a 64-bit word, least significant first.
pub open spec fn le_bytes(u: u64) -> Seq<u8> {
    seq![
        (u & 0xff) as u8,
        ((u >> 8) & 0xff) as u8,
        ((u >> 16) & 0xff) as u8,
        ((u >> 24) & 0xff) as u8,
        ((u >> 32) & 0xff) as u8,
        ((u >> 40) & 0xff) as u8,
        ((u >> 48) & 0xff) as u8,
        ((u >> 56) & 0xff) as u8,
    ]
}

/// The eight bytes of a timestamp: its two's complement, little-endian.
pub open spec fn timestamp_bytes(t: i64) -> Seq<u8> {
    le_bytes(t as u64)
}

/// The timestamp that eight little-endian bytes stand for.
pub open spec fn timestamp_of(b: Seq<u8>) -> i64
    recommends
        b.len() == 8,
{
    ((b[0] as u64) | ((b[1] as u64) << 8) | ((b[2] as u64) << 16) | ((b[3] as u64) << 24) | ((
    b[4] as u64) << 32) | ((b[5] as u64) << 40) | ((b[6] as u64) << 48) | ((b[7] as u64)
        << 56)) as i64
}

/// A group name as it stands in a frame: its bytes, then zeros up to 15.
pub open spec fn padded_id(name: Seq<u8>) -> Seq<u8>
    recommends
        name.len() <= 15,
{
    name + Seq::new((15 - name.len()) as nat, |i: int| 0u8)
}

/// `name` is the group name stored in `id`: what stands before the first
/// zero byte, or all of it if there is none.
pub open spec fn is_name_of(name: Seq<u8>, id: Seq<u8>) -> bool {
    &&& name.len() <= id.len()
    &&& name == id.subrange(0, name.len() as int)
    &&& forall|i: int| 0 <= i < name.len() ==> name[i] != 0
    &&& name.len() < id.len() ==> id[name.len() as int] == 0
}

/// `frame` is what the first 28 bytes of `bytes` say, field by field.
pub open spec fn carries(bytes: Seq<u8>, frame: GroupFrame) -> bool {
    &&& bytes.len() >= 28
    &&& frame.magic@ == bytes.subrange(0, 4)
    &&& frame.version == bytes[4]
    &&& frame.group_id@ == bytes.subrange(5, 20)
    &&& frame.timestamp == timestamp_of(bytes.subrange(20, 28))
}

/// `r` is what reading `bytes` gives: the frame that their first 28 bytes
/// carry, or an error if there are fewer.
pub open spec fn decodes(bytes: Seq<u8>, r: Result<GroupFrame, DecodeError>) -> bool {
    match r {
        Ok(frame) => carries(bytes, frame),
        Err(e) => bytes.len() < 28 && e == DecodeError::Truncated,
    }
}

impl GroupFrame {
    /// The datagram of this frame: magic, version, group id, timestamp.
    pub open spec fn wire(self) -> Seq<u8> {
        self.magic@ + seq![self.version] + self.group_id@ + timestamp_bytes(self.timestamp)
    }

    /// Magic and version are the ones of this implementation.
    pub open spec fn supported(self) -> bool {
        self.magic@ == magic_bytes() && self.version == PROTOCOL_VERSION
    }

    /// Create a new frame for `group_id` started at ghost time `timestamp`.
    pub fn new(group_id: [u8; 15], timestamp: i64) -> (frame: Self)
        ensures
            frame.supported(),
            frame.group_id == group_id,
            frame.timestamp == timestamp,
    {
        Self {
            magic: [0x67u8, 0x72u8, 0x75u8, 0x70u8],
            version: PROTOCOL_VERSION,
            group_id,
            timestamp,
        }
    }

    /// Check whether this implementation understands the frame.
    pub fn is_supported(&self) -> (ok: bool)
        ensures
            ok == self.supported(),
    {
        let ok = self.magic[0] == 0x67 && self.magic[1] == 0x72 && self.magic[2] == 0x75
            && self.magic[3] == 0x70 && self.version == PROTOCOL_VERSION;
        proof {
            if ok {
                assert(self.magic@ =~= magic_bytes());
            }
        }
        ok
    }

    /// Serialise the frame, field by field, integers little-endian.
    pub fn encode(&self) -> (bytes: Vec<u8>)
        ensures
            bytes@ == self.wire(),
            bytes@.len() == 28,
    {
        let mut bytes: Vec<u8> = Vec::with_capacity(FRAME_LENGTH);
        let mut i: usize = 0;
        while i < 4
            invariant
                i <= 4,
                bytes@ == self.magic@.subrange(0, i as int),
            decreases 4 - i,
        {
            bytes.push(self.magic[i]);
            i += 1;
            assert(bytes@ =~= self.magic@.subrange(0, i as int));
        }
        assert(bytes@ =~= self.magic@);
        bytes.push(self.version);
        let mut j: usize = 0;
        while j < 15
            invariant
                j <= 15,
                bytes@ == self.magic@ + seq![self.version] + self.group_id@.subrange(0, j as int),
            decreases 15 - j,
        {
            bytes.push(self.group_id[j]);
            j += 1;
            assert(bytes@ =~= self.magic@ + seq![self.version] + self.group_id@.subrange(
                0,
                j as int,
            ));
        }
        assert(self.group_id@.subrange(0, 15) =~= self.group_id@);
        append_le(&mut bytes, self.timestamp as u64);
        assert(bytes@ =~= self.wire());
        bytes
    }

    /// Read a frame from the front of a datagram.  Any 28 bytes are a
    /// frame; what follows them is ignored.  Whether the frame is one of
    /// ours is a separate question, answered by [`GroupFrame::is_supported`].
    pub fn decode(bytes: &[u8]) -> (r: Result<GroupFrame, DecodeError>)
        ensures
            decodes(bytes@, r),
    {
        if bytes.len() < FRAME_LENGTH {
            return Err(DecodeError::Truncated);
        }
        let magic: [u8; 4] = [bytes[0], bytes[1], bytes[2], bytes[3]];
        let group_id: [u8; 15] = [
            bytes[5],
            bytes[6],
            bytes[7],
            bytes[8],
            bytes[9],
            bytes[10],
            bytes[11],
            bytes[12],
            bytes[13],
            bytes[14],
            bytes[15],
            bytes[16],
            bytes[17],
            bytes[18],
            bytes[19],
        ];
        let u: u64 = (bytes[20] as u64) | ((bytes[21] as u64) << 8) | ((bytes[22] as u64) << 16)
            | ((bytes[23] as u64) << 24) | ((bytes[24] as u64) << 32) | ((bytes[25] as u64)
            << 40) | ((bytes[26] as u64) << 48) | ((bytes[27] as u64) << 56);
        let frame = GroupFrame { magic, version: bytes[4], group_id, timestamp: u as i64 };
        assert(frame.magic@ =~= bytes@.subrange(0, 4));
        assert(frame.group_id@ =~= bytes@.subrange(5, 20));
        Ok(frame)
    }

    /// The name of the frame's group: the id without its zero padding.
    pub fn name_bytes(&self) -> (name: Vec<u8>)
        ensures
            is_name_of(name@, self.group_id@),
    {
        let mut name: Vec<u8> = Vec::new();
        let mut i: usize = 0;
        while i < 15 && self.group_id[i] != 0
            invariant
                i <= 15,
                name@ == self.group_id@.subrange(0, i as int),
                forall|k: int| 0 <= k < i ==> self.group_id@[k] != 0,
            decreases 15 - i,
        {
            name.push(self.group_id[i]);
            i += 1;
            assert(name@ =~= self.group_id@.subrange(0, i as int));
        }
        name
    }
}

/// Append the eight bytes of `u`, least significant first.
pub fn append_le(bytes: &mut Vec<u8>, u: u64)
    ensures
        final(bytes)@ == old(bytes)@ + le_bytes(u),
{
    bytes.push((u & 0xff) as u8);
    bytes.push(((u >> 8) & 0xff) as u8);
    bytes.push(((u >> 16) & 0xff) as u8);
    bytes.push(((u >> 24) & 0xff) as u8);
    bytes.push(((u >> 32) & 0xff) as u8);
    bytes.push(((u >> 40) & 0xff) as u8);
    bytes.push(((u >> 48) & 0xff) as u8);
    bytes.push(((u >> 56) & 0xff) as u8);
    assert(bytes@ =~= old(bytes)@ + le_bytes(u));
}

/// The frame id of a group name: its UTF-8 bytes, zero padded to 15.  A name
/// of 15 bytes still fits; a longer one is refused.
pub fn group_id_from_str(name: &str) -> (r: Result<[u8; 15], Error>)
    ensures
        r is Ok <==> name.spec_bytes().len() <= 15,
        r is Ok ==> r->Ok_0@ == padded_id(name.spec_bytes()),
        r is Err ==> r->Err_0 == Error::GroupIdTooLong,
{
    let bytes = name.as_bytes();
    if bytes.len() > MAX_GROUP_ID_LENGTH {
        return Err(Error::GroupIdTooLong);
    }
    let mut id: [u8; 15] = [0u8; 15];
    let mut i: usize = 0;
    while i < bytes.len()
        invariant
            i <= bytes@.len() <= 15,
            forall|k: int| 0 <= k < i ==> id@[k] == bytes@[k],
            forall|k: int| i <= k < 15 ==> id@[k] == 0u8,
        decreases bytes@.len() - i,
    {
        id[i] = bytes[i];
        i += 1;
    }
    assert(id@ =~= padded_id(name.spec_bytes()));
    Ok(id)
}

/// Decoding what was encoded gives the frame back, whether or not the frame
/// is a supported one.
pub proof fn lemma_decode_encode(frame: GroupFrame, r: Result<GroupFrame, DecodeError>)
    requires
        decodes(frame.wire(), r),
    ensures
        r == Ok::<GroupFrame, DecodeError>(frame),
{
    let w = frame.wire();
    assert(w.len() == 28);
    let decoded = r->Ok_0;
    assert(w.subrange(0, 4) =~= frame.magic@);
    assert(w.subrange(5, 20) =~= frame.group_id@);
    assert(w.subrange(20, 28) =~= timestamp_bytes(frame.timestamp));
    lemma_timestamp_round_trip(frame.timestamp);
    assert(decoded.magic@ =~= frame.magic@);
    assert(decoded.group_id@ =~= frame.group_id@);
    assert(decoded.magic == frame.magic);
    assert(decoded.group_id == frame.group_id);
}

/// A datagram carries at most one frame, and that frame encodes to the
/// datagram's first 28 bytes.
pub proof fn lemma_encode_decode(bytes: Seq<u8>, frame: GroupFrame)
    requires
        carries(bytes, frame),
    ensures
        frame.wire() == bytes.subrange(0, 28),
        forall|other: GroupFrame| carries(bytes, other) ==> other == frame,
{
    lemma_bytes_round_trip(bytes.subrange(20, 28));
    assert(frame.wire() =~= bytes.subrange(0, 28));
    assert forall|other: GroupFrame| carries(bytes, other) implies other == frame by {
        assert(other.magic@ =~= frame.magic@);
        assert(other.group_id@ =~= frame.group_id@);
        assert(other.magic == frame.magic);
        assert(other.group_id == frame.group_id);
    }
}

/// A name without zero bytes is the name of its own padded id, and of no
/// other id is it more than one name.
pub proof fn lemma_name_of_padded(name: Seq<u8>)
    requires
        name.len() <= 15,
        forall|i: int| 0 <= i < name.len() ==> name[i] != 0,
    ensures
        is_name_of(name, padded_id(name)),
        forall|other: Seq<u8>| is_name_of(other, padded_id(name)) ==> other == name,
{
    let id = padded_id(name);
    assert(name =~= id.subrange(0, name.len() as int));
    assert forall|other: Seq<u8>| is_name_of(other, id) implies other == name by {
        if other.len() < name.len() {
            assert(id[other.len() as int] == name[other.len() as int]);
        } else if other.len() > name.len() {
            assert(other[name.len() as int] == id[name.len() as int]);
        }
        assert(other =~= name);
    }
}

/// Reading the eight bytes of a timestamp gives the timestamp.
pub proof fn lemma_timestamp_round_trip(t: i64)
    ensures
        timestamp_of(timestamp_bytes(t)) == t,
{
    let u = t as u64;
    assert(((u & 0xff) as u8 as u64) | (((u >> 8) & 0xff) as u8 as u64) << 8 | (((u >> 16) & 0xff) as u8 as u64)
        << 16 | (((u >> 24) & 0xff) as u8 as u64) << 24 | (((u >> 32) & 0xff) as u8 as u64) << 32 | (((u >> 40)
        & 0xff) as u8 as u64) << 40 | (((u >> 48) & 0xff) as u8 as u64) << 48 | (((u >> 56) & 0xff) as u8 as u64)
        << 56 == u) by (bit_vector);
    assert(u as i64 == t) by (bit_vector)
        requires
            u == t as u64,
    ;
}

/// Writing the timestamp that eight bytes stand for gives the bytes.
pub proof fn lemma_bytes_round_trip(b: Seq<u8>)
    requires
        b.len() == 8,
    ensures
        timestamp_bytes(timestamp_of(b)) == b,
{
    let (b0, b1, b2, b3, b4, b5, b6, b7) = (b[0], b[1], b[2], b[3], b[4], b[5], b[6], b[7]);
    let u: u64 = (b0 as u64) | ((b1 as u64) << 8) | ((b2 as u64) << 16) | ((b3 as u64) << 24) | ((
    b4 as u64) << 32) | ((b5 as u64) << 40) | ((b6 as u64) << 48) | ((b7 as u64) << 56);
    let t = u as i64;
    assert(t as u64 == u) by (bit_vector)
        requires
            t == u as i64,
    ;
    assert((u & 0xff) as u8 == b0 && ((u >> 8) & 0xff) as u8 == b1 && ((u >> 16) & 0xff) as u8 == b2
        && ((u >> 24) & 0xff) as u8 == b3 && ((u >> 32) & 0xff) as u8 == b4 && ((u >> 40)
        & 0xff) as u8 == b5 && ((u >> 48) & 0xff) as u8 == b6 && ((u >> 56) & 0xff) as u8 == b7)
        by (bit_vector)
        requires
            u == (b0 as u64) | ((b1 as u64) << 8) | ((b2 as u64) << 16) | ((b3 as u64) << 24) | ((
            b4 as u64) << 32) | ((b5 as u64) << 40) | ((b6 as u64) << 48) | ((b7 as u64) << 56),
    ;
    assert(timestamp_bytes(timestamp_of(b)) =~= b);
}

} // verus!
