//! Messages in the clear and their canonical byte form.
//!
//! A message is framed as a header of sixteen bytes followed by its three
//! fields: the four bytes `CRIM`, then the byte lengths of sender, content and
//! timestamp as big-endian 32-bit numbers, then the sender in UTF-8, the
//! content, and the timestamp in UTF-8. Every message has exactly one frame
//! and every frame exactly one message.

use crate::bytes::{append_bytes, copy_range};
use crate::primitives::{bytes_of, string_from_utf8};
use vstd::prelude::*;
use vstd::utf8::{decode_utf8, encode_utf8, valid_utf8};

verus! {

/// A message in the clear. It lives in memory only, between encryption and
/// decryption.
#[derive(Clone, Debug, PartialEq, Eq)]
pub struct RawMessage {
    pub sender: String,
    pub message: Vec<u8>,
    pub time: String,
}

/// What a [`RawMessage`] holds.
pub struct RawMessageView {
    pub sender: Seq<char>,
    pub message: Seq<u8>,
    pub time: Seq<char>,
}

impl View for RawMessage {
    type V = RawMessageView;

    open spec fn view(&self) -> RawMessageView {
        RawMessageView { sender: self.sender@, message: self.message@, time: self.time@ }
    }
}

/// Length of the header of a frame.
pub const HEADER_LEN: usize = 16;

/// The longest frame that the cipher takes.
pub const MAX_FRAME_LEN: usize = 0x7fff_ffef;

/// The four bytes that open every frame.
pub open spec fn magic() -> Seq<u8> {
    seq![0x43u8, 0x52u8, 0x49u8, 0x4du8]
}

/// The four bytes of `n`, the most significant first.
pub open spec fn be32(n: nat) -> Seq<u8> {
    seq![
        ((n / 0x100_0000) % 0x100) as u8,
        ((n / 0x1_0000) % 0x100) as u8,
        ((n / 0x100) % 0x100) as u8,
        (n % 0x100) as u8,
    ]
}

/// The number that four bytes stand for, the most significant first.
pub open spec fn be32_value(bytes: Seq<u8>) -> nat {
    (bytes[0] as nat) * 0x100_0000 + (bytes[1] as nat) * 0x1_0000 + (bytes[2] as nat) * 0x100
        + (bytes[3] as nat)
}

/// The length of the frame of `m`.
pub open spec fn frame_len(m: RawMessageView) -> nat {
    HEADER_LEN as nat + encode_utf8(m.sender).len() + m.message.len() + encode_utf8(m.time).len()
}

/// Whether the frame of `m` is short enough for the cipher.
pub open spec fn framable(m: RawMessageView) -> bool {
    frame_len(m) <= MAX_FRAME_LEN
}

/// The header of a frame whose fields have the given byte lengths.
pub open spec fn header(sender_len: nat, message_len: nat, time_len: nat) -> Seq<u8> {
    magic() + be32(sender_len) + be32(message_len) + be32(time_len)
}

/// The canonical byte form of `m`.
pub open spec fn frame(m: RawMessageView) -> Seq<u8> {
    header(encode_utf8(m.sender).len(), m.message.len(), encode_utf8(m.time).len()) + encode_utf8(
        m.sender,
    ) + m.message + encode_utf8(m.time)
}

/// The message that `bytes` is the frame of, if it is one.
pub open spec fn parsed(bytes: Seq<u8>) -> Option<RawMessageView> {
    if bytes.len() < HEADER_LEN || bytes.len() > MAX_FRAME_LEN || bytes.subrange(0, 4) != magic() {
        None
    } else {
        let sender_len = be32_value(bytes.subrange(4, 8));
        let message_len = be32_value(bytes.subrange(8, 12));
        let time_len = be32_value(bytes.subrange(12, 16));
        let sender_end = HEADER_LEN + sender_len;
        let message_end = sender_end + message_len;
        if message_end + time_len != bytes.len() {
            None
        } else {
            let sender = bytes.subrange(HEADER_LEN as int, sender_end as int);
            let time = bytes.subrange(message_end as int, bytes.len() as int);
            if !valid_utf8(sender) || !valid_utf8(time) {
                None
            } else {
                Some(
                    RawMessageView {
                        sender: decode_utf8(sender),
                        message: bytes.subrange(sender_end as int, message_end as int),
                        time: decode_utf8(time),
                    },
                )
            }
        }
    }
}

/// Four bytes read back give the number they were written from.
pub proof fn lemma_be32_value(n: nat)
    requires
        n <= 0xffff_ffff,
    ensures
        be32(n).len() == 4,
        be32_value(be32(n)) == n,
{
}

/// A number written out gives the four bytes it was read from.
pub proof fn lemma_be32_bytes(bytes: Seq<u8>)
    requires
        bytes.len() == 4,
    ensures
        be32_value(bytes) <= 0xffff_ffff,
        be32(be32_value(bytes)) == bytes,
{
    let b0 = bytes[0] as int;
    let b1 = bytes[1] as int;
    let b2 = bytes[2] as int;
    let b3 = bytes[3] as int;
    let n = b0 * 0x100_0000 + b1 * 0x1_0000 + b2 * 0x100 + b3;
    assert(n == be32_value(bytes));
    assert(n / 0x100_0000 == b0);
    assert(n / 0x1_0000 == b0 * 0x100 + b1);
    assert(n / 0x100 == b0 * 0x1_0000 + b1 * 0x100 + b2);
    assert((b0 * 0x100 + b1) % 0x100 == b1);
    assert((b0 * 0x1_0000 + b1 * 0x100 + b2) % 0x100 == b2);
    assert(n % 0x100 == b3);
    assert(be32(n as nat) =~= bytes);
}

/// The header has sixteen bytes, which give the three lengths back.
pub proof fn lemma_header(sender_len: nat, message_len: nat, time_len: nat)
    requires
        sender_len <= 0xffff_ffff,
        message_len <= 0xffff_ffff,
        time_len <= 0xffff_ffff,
    ensures
        header(sender_len, message_len, time_len).len() == HEADER_LEN,
        header(sender_len, message_len, time_len).subrange(0, 4) == magic(),
        be32_value(header(sender_len, message_len, time_len).subrange(4, 8)) == sender_len,
        be32_value(header(sender_len, message_len, time_len).subrange(8, 12)) == message_len,
        be32_value(header(sender_len, message_len, time_len).subrange(12, 16)) == time_len,
{
    let h = header(sender_len, message_len, time_len);
    lemma_be32_value(sender_len);
    lemma_be32_value(message_len);
    lemma_be32_value(time_len);
    assert(h.subrange(0, 4) =~= magic());
    assert(h.subrange(4, 8) =~= be32(sender_len));
    assert(h.subrange(8, 12) =~= be32(message_len));
    assert(h.subrange(12, 16) =~= be32(time_len));
}

/// Parsing the frame of a message gives the message back.
pub proof fn lemma_parse_frame(m: RawMessageView)
    requires
        framable(m),
    ensures
        frame(m).len() == frame_len(m),
        parsed(frame(m)) == Some(m),
{
    let sender = encode_utf8(m.sender);
    let time = encode_utf8(m.time);
    let h = header(sender.len(), m.message.len(), time.len());
    let bytes = frame(m);
    lemma_header(sender.len(), m.message.len(), time.len());
    vstd::utf8::encode_utf8_valid_utf8(m.sender);
    vstd::utf8::encode_utf8_valid_utf8(m.time);
    vstd::utf8::encode_utf8_decode_utf8(m.sender);
    vstd::utf8::encode_utf8_decode_utf8(m.time);
    let sender_end = HEADER_LEN + sender.len();
    let message_end = sender_end + m.message.len();
    assert(bytes.len() == frame_len(m));
    assert(bytes.subrange(0, 16) =~= h);
    assert(bytes.subrange(0, 4) =~= h.subrange(0, 4));
    assert(bytes.subrange(4, 8) =~= h.subrange(4, 8));
    assert(bytes.subrange(8, 12) =~= h.subrange(8, 12));
    assert(bytes.subrange(12, 16) =~= h.subrange(12, 16));
    assert(bytes.subrange(HEADER_LEN as int, sender_end as int) =~= sender);
    assert(bytes.subrange(sender_end as int, message_end as int) =~= m.message);
    assert(bytes.subrange(message_end as int, bytes.len() as int) =~= time);
}

/// What parses as a message is the frame of that message, and of no other.
pub proof fn lemma_frame_parsed(bytes: Seq<u8>)
    requires
        parsed(bytes) is Some,
    ensures
        framable(parsed(bytes).unwrap()),
        frame(parsed(bytes).unwrap()) == bytes,
{
    let m = parsed(bytes).unwrap();
    let sender_len = be32_value(bytes.subrange(4, 8));
    let message_len = be32_value(bytes.subrange(8, 12));
    let time_len = be32_value(bytes.subrange(12, 16));
    let sender_end = HEADER_LEN + sender_len;
    let message_end = sender_end + message_len;
    let sender = bytes.subrange(HEADER_LEN as int, sender_end as int);
    let time = bytes.subrange(message_end as int, bytes.len() as int);
    vstd::utf8::decode_utf8_encode_utf8(sender);
    vstd::utf8::decode_utf8_encode_utf8(time);
    lemma_be32_bytes(bytes.subrange(4, 8));
    lemma_be32_bytes(bytes.subrange(8, 12));
    lemma_be32_bytes(bytes.subrange(12, 16));
    assert(encode_utf8(m.sender) == sender);
    assert(encode_utf8(m.time) == time);
    let h = header(sender.len(), m.message.len(), time.len());
    assert(h =~= bytes.subrange(0, 4) + bytes.subrange(4, 8) + bytes.subrange(8, 12)
        + bytes.subrange(12, 16));
    assert(h =~= bytes.subrange(0, 16));
    assert(frame(m) =~= bytes);
}

/// Appends the four bytes of `n` to `out`, the most significant first.
fn push_be32(out: &mut Vec<u8>, n: u32)
    ensures
        final(out)@ == old(out)@ + be32(n as nat),
{
    out.push(((n / 0x100_0000) % 0x100) as u8);
    out.push(((n / 0x1_0000) % 0x100) as u8);
    out.push(((n / 0x100) % 0x100) as u8);
    out.push((n % 0x100) as u8);
    assert(out@ =~= old(out)@ + be32(n as nat));
}

/// The number that the four bytes of `bytes` from position `at` stand for.
fn read_be32(bytes: &[u8], at: usize) -> (n: u32)
    requires
        at + 4 <= bytes@.len(),
    ensures
        n == be32_value(bytes@.subrange(at as int, at + 4)),
{
    let b0 = bytes[at] as u32;
    let b1 = bytes[at + 1] as u32;
    let b2 = bytes[at + 2] as u32;
    let b3 = bytes[at + 3] as u32;
    b0 * 0x100_0000 + b1 * 0x1_0000 + b2 * 0x100 + b3
}

/// The frame of `message`, or `None` where it would be longer than
/// [`MAX_FRAME_LEN`].
pub fn encode(message: &RawMessage) -> (out: Option<Vec<u8>>)
    ensures
        bytes_of(out) == if framable(message@) {
            Some(frame(message@))
        } else {
            None
        },
{
    let sender = message.sender.as_str().as_bytes();
    let time = message.time.as_str().as_bytes();
    let room: usize = MAX_FRAME_LEN - HEADER_LEN;
    if sender.len() > room || message.message.len() > room || time.len() > room {
        return None;
    }
    let total: u64 = sender.len() as u64 + message.message.len() as u64 + time.len() as u64;
    if total > room as u64 {
        return None;
    }
    let mut out: Vec<u8> = Vec::new();
    out.push(0x43u8);
    out.push(0x52u8);
    out.push(0x49u8);
    out.push(0x4du8);
    assert(out@ =~= magic());
    push_be32(&mut out, sender.len() as u32);
    push_be32(&mut out, message.message.len() as u32);
    push_be32(&mut out, time.len() as u32);
    assert(out@ == header(sender@.len(), message.message@.len(), time@.len()));
    append_bytes(&mut out, sender);
    append_bytes(&mut out, message.message.as_slice());
    append_bytes(&mut out, time);
    Some(out)
}

/// The message that `bytes` is the frame of, or `None` where it is no frame.
pub fn decode(bytes: &[u8]) -> (out: Option<RawMessage>)
    ensures
        match out {
            Some(m) => parsed(bytes@) == Some(m@),
            None => parsed(bytes@) is None,
        },
{
    if bytes.len() < HEADER_LEN || bytes.len() > MAX_FRAME_LEN {
        return None;
    }
    if bytes[0] != 0x43u8 || bytes[1] != 0x52u8 || bytes[2] != 0x49u8 || bytes[3] != 0x4du8 {
        assert(bytes@.subrange(0, 4)[0] == bytes@[0]);
        assert(bytes@.subrange(0, 4)[1] == bytes@[1]);
        assert(bytes@.subrange(0, 4)[2] == bytes@[2]);
        assert(bytes@.subrange(0, 4)[3] == bytes@[3]);
        return None;
    }
    assert(bytes@.subrange(0, 4) =~= magic());
    let sender_len = read_be32(bytes, 4) as u64;
    let message_len = read_be32(bytes, 8) as u64;
    let time_len = read_be32(bytes, 12) as u64;
    let sender_end: u64 = HEADER_LEN as u64 + sender_len;
    let message_end: u64 = sender_end + message_len;
    if message_end + time_len != bytes.len() as u64 {
        return None;
    }
    let sender_bytes = copy_range(bytes, HEADER_LEN, sender_end as usize);
    let message = copy_range(bytes, sender_end as usize, message_end as usize);
    let time_bytes = copy_range(bytes, message_end as usize, bytes.len());
    let sender = match string_from_utf8(sender_bytes) {
        Some(s) => s,
        None => {
            return None;
        },
    };
    let time = match string_from_utf8(time_bytes) {
        Some(t) => t,
        None => {
            return None;
        },
    };
    proof {
        vstd::utf8::encode_utf8_decode_utf8(sender@);
        vstd::utf8::encode_utf8_decode_utf8(time@);
    }
    Some(RawMessage { sender, message, time })
}

} // verus!
