//! The ICMP Echo message codec: a typed message, its wire encoding
//! (type, code, checksum, identifier, sequence number, payload — all
//! multi-byte fields big-endian), decoding, and reply validation.

use vstd::prelude::*;

verus! {

use crate::checksum::{
    checksum, lemma_checksum_round_trip, patch_checksum, spec_checksum,
};
use vstd::arithmetic::div_mod::lemma_fundamental_div_mod;
use vstd::slice::{slice_subrange, slice_to_vec};

/// One ICMP Echo Request or Reply.
pub struct ICMPMessage {
    /// 8 for a request, 0 for a reply.
    pub type_: u8,
    /// Always 0 for echo messages.
    pub code: u8,
    /// Valid only when computed over the message with this field zeroed.
    pub checksum: u16,
    pub identifier: u16,
    pub sequence_number: u16,
    pub data: Vec<u8>,
}

/// The mathematical image of an [`ICMPMessage`].
pub ghost struct MessageView {
    pub type_: u8,
    pub code: u8,
    pub checksum: u16,
    pub identifier: u16,
    pub sequence_number: u16,
    pub data: Seq<u8>,
}

impl View for ICMPMessage {
    type V = MessageView;

    open spec fn view(&self) -> MessageView {
        MessageView {
            type_: self.type_,
            code: self.code,
            checksum: self.checksum,
            identifier: self.identifier,
            sequence_number: self.sequence_number,
            data: self.data@,
        }
    }
}

impl MessageView {
    /// The same message with its checksum field zeroed: the form the
    /// checksum is computed over.
    pub open spec fn zero_checksum(self) -> MessageView {
        MessageView { checksum: 0, ..self }
    }

    /// The checksum field holds the checksum of the message with that
    /// field zeroed.
    pub open spec fn checksum_ok(self) -> bool {
        self.checksum == spec_checksum(spec_encode(self.zero_checksum()))
    }
}

/// The wire bytes of a message: an 8-byte header followed by the payload.
pub open spec fn spec_encode(m: MessageView) -> Seq<u8> {
    seq![
        m.type_,
        m.code,
        (m.checksum / 256) as u8,
        (m.checksum % 256) as u8,
        (m.identifier / 256) as u8,
        (m.identifier % 256) as u8,
        (m.sequence_number / 256) as u8,
        (m.sequence_number % 256) as u8,
    ] + m.data
}

/// Reads a message back from wire bytes; fails on fewer than 8 bytes.
/// The payload is every byte past the header, possibly none.
pub open spec fn spec_decode(s: Seq<u8>) -> Option<MessageView> {
    if s.len() < 8 {
        None
    } else {
        Some(
            MessageView {
                type_: s[0],
                code: s[1],
                checksum: (s[2] * 256 + s[3]) as u16,
                identifier: (s[4] * 256 + s[5]) as u16,
                sequence_number: (s[6] * 256 + s[7]) as u16,
                data: s.skip(8),
            },
        )
    }
}

/// A reply is accepted only if its checksum recomputes correctly and its
/// payload equals the transmitted payload byte for byte.
pub open spec fn spec_validate(reply: MessageView, expected: Seq<u8>) -> bool {
    reply.checksum_ok() && reply.data == expected
}

/// The fields of an Echo Request built for `identifier`, `sequence_number`
/// and `payload`, with its checksum already computed.
pub open spec fn echo_request_view(identifier: u16, sequence_number: u16, payload: Seq<u8>) -> MessageView {
    let zeroed = MessageView {
        type_: 8,
        code: 0,
        checksum: 0,
        identifier,
        sequence_number,
        data: payload,
    };
    MessageView { checksum: spec_checksum(spec_encode(zeroed)), ..zeroed }
}

/// Concatenates the header fields (big-endian) and `data`.
fn encode_fields(type_: u8, code: u8, ck: u16, identifier: u16, sequence_number: u16, data: &[u8]) -> (r: Vec<u8>)
    ensures
        r@ == spec_encode(
            MessageView {
                type_,
                code,
                checksum: ck,
                identifier,
                sequence_number,
                data: data@,
            },
        ),
{
    let mut bytes: Vec<u8> = Vec::new();
    bytes.push(type_);
    bytes.push(code);
    bytes.push((ck / 256) as u8);
    bytes.push((ck % 256) as u8);
    bytes.push((identifier / 256) as u8);
    bytes.push((identifier % 256) as u8);
    bytes.push((sequence_number / 256) as u8);
    bytes.push((sequence_number % 256) as u8);
    let ghost header = bytes@;
    let n = data.len();
    let mut i: usize = 0;
    while i < n
        invariant
            i <= n,
            n == data@.len(),
            bytes@ == header + data@.take(i as int),
        decreases n - i,
    {
        bytes.push(data[i]);
        proof {
            assert(header + data@.take(i as int) + seq![data@[i as int]]
                =~= header + data@.take(i as int + 1));
        }
        i = i + 1;
    }
    proof {
        assert(data@.take(n as int) =~= data@);
        assert(bytes@ =~= spec_encode(
            MessageView {
                type_,
                code,
                checksum: ck,
                identifier,
                sequence_number,
                data: data@,
            },
        ));
    }
    bytes
}

impl ICMPMessage {
    /// Serializes the message into its wire bytes.
    pub fn as_bytes(&self) -> (r: Vec<u8>)
        ensures
            r@ == spec_encode(self@),
    {
        encode_fields(
            self.type_,
            self.code,
            self.checksum,
            self.identifier,
            self.sequence_number,
            self.data.as_slice(),
        )
    }

    /// Reads a message out of wire bytes; `None` exactly when fewer than
    /// 8 bytes (a truncated ICMP header) are present.
    pub fn try_from_bytes(bytes: &[u8]) -> (r: Option<ICMPMessage>)
        ensures
            match r {
                Some(m) => bytes@.len() >= 8 && spec_decode(bytes@) == Some(m@),
                None => bytes@.len() < 8 && spec_decode(bytes@) is None,
            },
    {
        if bytes.len() < 8 {
            return None;
        }
        let data = slice_to_vec(slice_subrange(bytes, 8, bytes.len()));
        let m = ICMPMessage {
            type_: bytes[0],
            code: bytes[1],
            checksum: (bytes[2] as u16) * 256 + (bytes[3] as u16),
            identifier: (bytes[4] as u16) * 256 + (bytes[5] as u16),
            sequence_number: (bytes[6] as u16) * 256 + (bytes[7] as u16),
            data,
        };
        proof {
            assert(m@.data =~= spec_decode(bytes@).unwrap().data);
        }
        Some(m)
    }
}

/// Recomputes the checksum of `msg` as if its checksum field were zero.
pub fn compute_checksum(msg: &ICMPMessage) -> (r: u16)
    ensures
        r == spec_checksum(spec_encode(msg@.zero_checksum())),
{
    let bytes = encode_fields(
        msg.type_,
        msg.code,
        0,
        msg.identifier,
        msg.sequence_number,
        msg.data.as_slice(),
    );
    checksum(bytes.as_slice())
}

/// Builds an Echo Request (type 8, code 0) around `data` and fills in
/// its checksum.
pub fn echo_message(identifier: u16, sequence_number: u16, data: &[u8]) -> (r: ICMPMessage)
    ensures
        r@ == echo_request_view(identifier, sequence_number, data@),
{
    let mut msg = ICMPMessage {
        type_: 8,
        code: 0,
        checksum: 0,
        identifier,
        sequence_number,
        data: slice_to_vec(data),
    };
    let ck = compute_checksum(&msg);
    msg.checksum = ck;
    msg
}

/// Accepts a reply only if its checksum recomputes correctly and its
/// payload equals `expected` byte for byte.
pub fn validate_reply(reply: &ICMPMessage, expected: &[u8]) -> (r: bool)
    ensures
        r == spec_validate(reply@, expected@),
{
    let ck = compute_checksum(reply);
    if ck != reply.checksum {
        return false;
    }
    if reply.data.len() != expected.len() {
        proof {
            assert(reply@.data.len() != expected@.len());
        }
        return false;
    }
    let n = expected.len();
    let mut i: usize = 0;
    while i < n
        invariant
            i <= n,
            n == expected@.len(),
            n == reply@.data.len(),
            forall|j: int| 0 <= j < i ==> reply@.data[j] == expected@[j],
        decreases n - i,
    {
        if reply.data[i] != expected[i] {
            return false;
        }
        i = i + 1;
    }
    proof {
        assert(reply@.data =~= expected@);
    }
    true
}

/// Codec round trip: decoding an encoded message gives the message back.
pub proof fn lemma_codec_round_trip(m: MessageView)
    ensures
        spec_decode(spec_encode(m)) == Some(m),
{
    let s = spec_encode(m);
    assert(s.len() >= 8);
    lemma_fundamental_div_mod(m.checksum as int, 256);
    lemma_fundamental_div_mod(m.identifier as int, 256);
    lemma_fundamental_div_mod(m.sequence_number as int, 256);
    assert(s.skip(8) =~= m.data);
    assert(spec_decode(s) == Some(m));
}

/// A message whose checksum field was filled in correctly has a whole-image
/// checksum of zero.
pub proof fn lemma_encoded_checksum_zero(m: MessageView)
    requires
        m.checksum_ok(),
    ensures
        spec_checksum(spec_encode(m)) == 0,
{
    let zeroed = spec_encode(m.zero_checksum());
    assert(zeroed[2] == 0 && zeroed[3] == 0);
    lemma_checksum_round_trip(zeroed);
    assert(patch_checksum(zeroed, m.checksum) =~= spec_encode(m));
}

/// A reply whose payload differs anywhere from the transmitted payload is
/// rejected, however self-consistent its checksum is.
pub proof fn lemma_payload_mismatch_rejected(reply: MessageView, expected: Seq<u8>)
    requires
        reply.data != expected,
    ensures
        !spec_validate(reply, expected),
{
}

} // verus!
