//! The wire format: the handshake in which a client announces its node name,
//! and the heartbeat packets that follow it.

use crate::bytes::{
    be_bytes, be_value, law_bytes_are_digits, law_read_back_value, law_write_back_bytes, lemma_be_bytes_len, push_be,
    read_be, span,
};
use crate::disconnect::IoErrorKind;
use vstd::arithmetic::power::pow;
use vstd::prelude::*;
use vstd::utf8::{
    decode_utf8, encode_utf8, encode_utf8_decode_utf8, encode_utf8_valid_utf8, is_char_boundary,
    valid_utf8, valid_utf8_split,
};

verus! {

/// Heartbeat packet: 8 bytes of sequence number and 8 bytes of timestamp,
/// both big-endian.
pub const PACKET_SIZE: usize = 16;

/// The largest number of name bytes in a handshake.
pub const MAX_NAME_BYTES: usize = 256;

/// The largest number of characters in a peer name.
pub const MAX_NAME_CHARS: usize = 64;

/// A heartbeat. The timestamp, a floating-point number of seconds since the
/// Unix epoch, is kept as its IEEE 754 bit pattern.
#[derive(Clone, Copy, Debug, PartialEq, Eq, Structural)]
pub struct Heartbeat {
    pub seq: u64,
    pub timestamp: u64,
}

/// The bytes of a heartbeat packet.
pub open spec fn packet(seq: u64, timestamp: u64) -> Seq<u8> {
    be_bytes(seq as nat, 8) + be_bytes(timestamp as nat, 8)
}

/// The heartbeat that a packet carries.
pub open spec fn packet_heartbeat(bytes: Seq<u8>) -> Heartbeat {
    Heartbeat {
        seq: be_value(bytes.take(8)) as u64,
        timestamp: be_value(bytes.skip(8)) as u64,
    }
}

/// Encodes a heartbeat packet. The client's sender and the server's echo both
/// go through here.
pub fn encode_packet(seq: u64, timestamp: u64) -> (buf: [u8; PACKET_SIZE])
    ensures
        buf@ == packet(seq, timestamp),
{
    let mut out: Vec<u8> = Vec::new();
    push_be(&mut out, seq, 8);
    push_be(&mut out, timestamp, 8);
    proof {
        lemma_be_bytes_len(seq as nat, 8);
        lemma_be_bytes_len(timestamp as nat, 8);
        assert(out@ =~= packet(seq, timestamp));
    }
    let buf: [u8; PACKET_SIZE] = [
        out[0],
        out[1],
        out[2],
        out[3],
        out[4],
        out[5],
        out[6],
        out[7],
        out[8],
        out[9],
        out[10],
        out[11],
        out[12],
        out[13],
        out[14],
        out[15],
    ];
    assert(buf@ =~= out@);
    buf
}

/// Reads the heartbeat out of a packet.
pub fn decode_packet(buf: &[u8; PACKET_SIZE]) -> (heartbeat: Heartbeat)
    ensures
        heartbeat == packet_heartbeat(buf@),
{
    let bytes: &[u8] = buf.as_slice();
    let seq: u64 = read_be(bytes, 0, 8);
    let timestamp: u64 = read_be(bytes, 8, 16);
    assert(bytes@.subrange(0, 8) =~= buf@.take(8));
    assert(bytes@.subrange(8, 16) =~= buf@.skip(8));
    Heartbeat { seq, timestamp }
}

proof fn lemma_span_of_u64()
    ensures
        span(8) == 0x1_0000_0000_0000_0000,
{
    reveal_with_fuel(span, 9);
}

/// A packet reads as the heartbeat that it was made from.
pub proof fn law_packet_read_back(seq: u64, timestamp: u64)
    ensures
        packet(seq, timestamp).len() == PACKET_SIZE,
        packet_heartbeat(packet(seq, timestamp)) == (Heartbeat { seq, timestamp }),
{
    lemma_span_of_u64();
    lemma_be_bytes_len(seq as nat, 8);
    lemma_be_bytes_len(timestamp as nat, 8);
    law_read_back_value(seq as nat, 8);
    law_read_back_value(timestamp as nat, 8);
    let bytes = packet(seq, timestamp);
    assert(bytes.take(8) =~= be_bytes(seq as nat, 8));
    assert(bytes.skip(8) =~= be_bytes(timestamp as nat, 8));
}

/// Every sixteen bytes are the packet of the heartbeat that they read as: an
/// echo repeats what came, byte for byte.
pub proof fn law_packet_written_back(bytes: Seq<u8>)
    requires
        bytes.len() == PACKET_SIZE,
    ensures
        ({
            let heartbeat = packet_heartbeat(bytes);
            packet(heartbeat.seq, heartbeat.timestamp) == bytes
        }),
{
    lemma_span_of_u64();
    crate::bytes::lemma_be_value_bound(bytes.take(8));
    crate::bytes::lemma_be_value_bound(bytes.skip(8));
    law_write_back_bytes(bytes.take(8));
    law_write_back_bytes(bytes.skip(8));
    assert(bytes.take(8) + bytes.skip(8) =~= bytes);
}

/// The last position up to `limit` at which a character ends.
pub open spec fn last_boundary(bytes: Seq<u8>, limit: nat) -> nat
    decreases limit,
{
    if limit == 0 || is_char_boundary(bytes, limit as int) {
        limit
    } else {
        last_boundary(bytes, (limit - 1) as nat)
    }
}

/// The bytes of a name that fit into a handshake: whole characters only.
pub open spec fn name_bytes(name: Seq<char>) -> Seq<u8> {
    let bytes = encode_utf8(name);
    if bytes.len() <= MAX_NAME_BYTES {
        bytes
    } else {
        bytes.take(last_boundary(bytes, MAX_NAME_BYTES as nat) as int)
    }
}

/// The handshake that announces a name: the number of name bytes in four
/// bytes, and the name bytes.
pub open spec fn handshake(name: Seq<char>) -> Seq<u8> {
    be_bytes(name_bytes(name).len(), 4) + name_bytes(name)
}

/// Of every four positions in a text, a character ends at one at least.
proof fn lemma_boundary_nearby(bytes: Seq<u8>, index: int) -> (boundary: int)
    requires
        valid_utf8(bytes),
        0 <= index < bytes.len(),
    ensures
        0 <= boundary <= index < boundary + 4,
        is_char_boundary(bytes, boundary),
    decreases bytes.len(),
{
    let n = vstd::utf8::length_of_first_scalar(bytes);
    if index < n {
        0
    } else {
        let tail = vstd::utf8::pop_first_scalar(bytes);
        let boundary = lemma_boundary_nearby(tail, index - n);
        boundary + n
    }
}

/// The last boundary is one, and no later one is within the limit.
proof fn lemma_last_boundary(bytes: Seq<u8>, limit: nat)
    requires
        valid_utf8(bytes),
    ensures
        last_boundary(bytes, limit) <= limit,
        is_char_boundary(bytes, last_boundary(bytes, limit) as int),
        forall|i: int|
            last_boundary(bytes, limit) < i <= limit ==> !#[trigger] is_char_boundary(bytes, i),
    decreases limit,
{
    vstd::utf8::is_char_boundary_start_end_of_seq(bytes);
    if limit > 0 && !is_char_boundary(bytes, limit as int) {
        lemma_last_boundary(bytes, (limit - 1) as nat);
    }
}

/// The bytes with which a client announces its node name right after it has
/// connected: as many of the name's characters as fit into 256 bytes, after the
/// number of these bytes.
pub fn encode_handshake(name: &str) -> (out: Vec<u8>)
    ensures
        out@ == handshake(name@),
{
    let bytes: &[u8] = name.as_bytes();
    let len: usize = if bytes.len() <= MAX_NAME_BYTES {
        bytes.len()
    } else {
        let mut cut: usize = MAX_NAME_BYTES;
        proof {
            encode_utf8_valid_utf8(name@);
            vstd::utf8::is_char_boundary_start_end_of_seq(bytes@);
        }
        while !name.is_char_boundary(cut)
            invariant
                cut <= MAX_NAME_BYTES < bytes@.len(),
                bytes@ == encode_utf8(name@),
                is_char_boundary(bytes@, 0),
                last_boundary(bytes@, cut as nat) == last_boundary(bytes@, MAX_NAME_BYTES as nat),
            decreases cut,
        {
            cut -= 1;
        }
        cut
    };
    let mut out: Vec<u8> = Vec::new();
    push_be(&mut out, len as u64, 4);
    let ghost header = out@;
    let mut i: usize = 0;
    while i < len
        invariant
            i <= len <= bytes@.len(),
            out@ == header + bytes@.take(i as int),
        decreases len - i,
    {
        out.push(bytes[i]);
        assert(bytes@.take(i + 1) =~= bytes@.take(i as int).push(bytes@[i as int]));
        assert(out@ =~= header + bytes@.take(i + 1));
        i += 1;
    }
    assert(bytes@.take(len as int) =~= name_bytes(name@));
    assert(header =~= be_bytes(len as nat, 4));
    out
}

/// Why a client did not announce a name.
#[derive(Clone, Copy, Debug, PartialEq, Eq, Structural)]
pub enum HandshakeError {
    /// It did not come in time.
    TimedOut,
    /// Its length is zero or over the limit.
    InvalidLength,
    /// It could not be read.
    Io(IoErrorKind),
}

/// The number of name bytes that a handshake header announces; none, or more
/// than 256, is refused.
pub fn handshake_length(header: &[u8; 4]) -> (result: Result<usize, HandshakeError>)
    ensures
        ({
            let len = be_value(header@);
            if 0 < len <= MAX_NAME_BYTES {
                result matches Ok(n) && n == len
            } else {
                result == Err::<usize, HandshakeError>(HandshakeError::InvalidLength)
            }
        }),
{
    let bytes: &[u8] = header.as_slice();
    let len: u64 = read_be(bytes, 0, 4);
    assert(bytes@.subrange(0, 4) =~= header@);
    if len == 0 || len > MAX_NAME_BYTES as u64 {
        Err(HandshakeError::InvalidLength)
    } else {
        Ok(len as usize)
    }
}

/// What `char::is_alphanumeric` says of a character outside ASCII.
pub uninterp spec fn unicode_alphanumeric(c: char) -> bool;

/// The ASCII letters and digits.
pub open spec fn ascii_alphanumeric(c: char) -> bool {
    'a' <= c <= 'z' || 'A' <= c <= 'Z' || '0' <= c <= '9'
}

/// `char::is_alphanumeric`: of the ASCII characters the letters and the digits
/// are alphanumeric. Which of the others are is a property of Unicode, given a
/// name here and not spelled out.
pub assume_specification[ char::is_alphanumeric ](c: char) -> (yes: bool)
    ensures
        yes == (if (c as u32) < 128 {
            ascii_alphanumeric(c)
        } else {
            unicode_alphanumeric(c)
        }),
;

/// Whether a character may stand in a peer name.
pub open spec fn name_char(c: char) -> bool {
    ||| (if (c as u32) < 128 {
        ascii_alphanumeric(c)
    } else {
        unicode_alphanumeric(c)
    })
    ||| c == '-'
    ||| c == '_'
    ||| c == '.'
}

/// The characters of a name that are kept.
pub open spec fn kept_chars(name: Seq<char>) -> Seq<char> {
    let kept = name.filter(|c: char| name_char(c));
    if kept.len() <= MAX_NAME_CHARS {
        kept
    } else {
        kept.take(MAX_NAME_CHARS as int)
    }
}

/// The peer name made of an announced name.
pub open spec fn sanitized(name: Seq<char>) -> Seq<char> {
    if kept_chars(name).len() == 0 {
        "unknown"@
    } else {
        kept_chars(name)
    }
}

/// Keeps only characters that are safe in Prometheus label values and log
/// lines: alphanumerics, hyphens, underscores and dots, and of these the first
/// 64. Where none is left the name is `unknown`.
pub fn sanitize_peer_name(name: &str) -> (out: String)
    ensures
        out@ == sanitized(name@),
{
    let mut out = String::new();
    let mut kept: usize = 0;
    for c in it: name.chars()
        invariant
            it.seq() == name@,
            kept == out@.len(),
            kept <= MAX_NAME_CHARS,
            out@ == kept_chars(name@.take(it.index() as int)),
    {
        let ghost before = name@.take(it.index() as int);
        let ghost after = name@.take(it.index() + 1);
        proof {
            lemma_kept_chars(before, c);
            assert(before.push(c) =~= after);
        }
        if kept < MAX_NAME_CHARS && (c.is_alphanumeric() || c == '-' || c == '_' || c == '.') {
            out.push(c);
            kept += 1;
        }
    }
    assert(name@.take(name@.len() as int) =~= name@);
    if kept == 0 {
        "unknown".to_string()
    } else {
        out
    }
}

/// One more character is kept if it may stand in a name and there is room.
proof fn lemma_kept_chars(name: Seq<char>, c: char)
    ensures
        kept_chars(name.push(c)) == if kept_chars(name).len() < MAX_NAME_CHARS && name_char(c) {
            kept_chars(name).push(c)
        } else {
            kept_chars(name)
        },
{
    let keep = |c: char| name_char(c);
    let more = name.push(c);
    assert(more.drop_last() =~= name);
    assert(more.filter(keep) == if keep(c) {
        name.filter(keep).push(c)
    } else {
        name.filter(keep)
    }) by {
        reveal(Seq::filter);
    }
    assert(kept_chars(more) =~= if kept_chars(name).len() < MAX_NAME_CHARS && name_char(c) {
        kept_chars(name).push(c)
    } else {
        kept_chars(name)
    });
}

/// The announced name that handshake bytes stand for; bytes that are not UTF-8
/// stand for the empty name.
pub open spec fn announced(bytes: Seq<u8>) -> Seq<char> {
    if valid_utf8(bytes) {
        decode_utf8(bytes)
    } else {
        Seq::empty()
    }
}

/// `String::from_utf8` gives the string that the bytes encode, and an error
/// exactly where they are not UTF-8.
#[verifier::external_body]
fn utf8_text(bytes: Vec<u8>) -> (text: Option<String>)
    ensures
        match text {
            Some(s) => valid_utf8(bytes@) && s@ == decode_utf8(bytes@),
            None => !valid_utf8(bytes@),
        },
{
    String::from_utf8(bytes).ok()
}

/// The peer name for the name bytes of a handshake.
pub fn handshake_name(bytes: Vec<u8>) -> (name: String)
    ensures
        name@ == sanitized(announced(bytes@)),
{
    let raw: String = match utf8_text(bytes) {
        Some(text) => text,
        None => String::new(),
    };
    sanitize_peer_name(raw.as_str())
}

/// A peer name is never empty, has at most 64 characters, and consists of
/// characters that may stand in one.
pub proof fn law_peer_names_are_clean(name: Seq<char>)
    ensures
        0 < sanitized(name).len() <= MAX_NAME_CHARS,
        forall|i: int| 0 <= i < sanitized(name).len() ==> name_char(#[trigger] sanitized(name)[i]),
{
    broadcast use Seq::lemma_filter_pred;

    reveal_strlit("unknown");
    assert("unknown"@.len() == 7);
    assert forall|i: int| 0 <= i < sanitized(name).len() implies name_char(
        #[trigger] sanitized(name)[i],
    ) by {
        if kept_chars(name).len() > 0 {
            let kept = name.filter(|c: char| name_char(c));
            assert(sanitized(name)[i] == kept[i]);
        }
    }
}

/// A name of 1 to 64 characters that may all stand in a peer name is kept as
/// it is.
pub proof fn law_clean_names_are_kept(name: Seq<char>)
    requires
        0 < name.len() <= MAX_NAME_CHARS,
        forall|i: int| 0 <= i < name.len() ==> name_char(#[trigger] name[i]),
    ensures
        sanitized(name) == name,
{
    lemma_filter_keeps_all(name, name.len());
    assert(name.take(name.len() as int) =~= name);
}

proof fn lemma_filter_keeps_all(name: Seq<char>, n: nat)
    requires
        n <= name.len(),
        forall|i: int| 0 <= i < name.len() ==> name_char(#[trigger] name[i]),
    ensures
        name.take(n as int).filter(|c: char| name_char(c)) == name.take(n as int),
    decreases n,
{
    reveal(Seq::filter);
    if n > 0 {
        lemma_filter_keeps_all(name, (n - 1) as nat);
        assert(name.take(n as int).drop_last() =~= name.take(n - 1));
        assert(name.take(n - 1).push(name[n - 1]) =~= name.take(n as int));
    } else {
        assert(name.take(0) =~= Seq::empty());
    }
}

/// Cleaning a peer name changes nothing.
pub proof fn law_sanitizing_is_idempotent(name: Seq<char>)
    ensures
        sanitized(sanitized(name)) == sanitized(name),
{
    law_peer_names_are_clean(name);
    law_clean_names_are_kept(sanitized(name));
}

/// What a client announces, the server reads. The header gives the number of
/// bytes that follow, and the server accepts it for every name but the empty
/// one. The bytes are UTF-8. A name of at most 256 bytes arrives whole; of a
/// longer one arrive the first characters, as many as fit, in more than 252
/// bytes.
pub proof fn law_handshake_read_back(name: Seq<char>)
    ensures
        handshake(name).len() == 4 + name_bytes(name).len(),
        be_value(handshake(name).take(4)) == name_bytes(name).len(),
        name_bytes(name).len() <= MAX_NAME_BYTES,
        name_bytes(name).len() == 0 <==> name.len() == 0,
        handshake(name).skip(4) == name_bytes(name),
        valid_utf8(name_bytes(name)),
        name_bytes(name).is_prefix_of(encode_utf8(name)),
        announced(handshake(name).skip(4)).is_prefix_of(name),
        encode_utf8(announced(handshake(name).skip(4))) == name_bytes(name),
        encode_utf8(name).len() <= MAX_NAME_BYTES ==> announced(handshake(name).skip(4)) == name,
        encode_utf8(name).len() > MAX_NAME_BYTES ==> name_bytes(name).len() + 4 > MAX_NAME_BYTES,
{
    let bytes = encode_utf8(name);
    let sent = name_bytes(name);
    reveal_with_fuel(span, 5);
    encode_utf8_valid_utf8(name);
    lemma_last_boundary(bytes, MAX_NAME_BYTES as nat);
    encode_utf8_decode_utf8(name);
    if name.len() > 0 {
        vstd::utf8::encode_utf8_first_scalar(name);
    }
    if bytes.len() > MAX_NAME_BYTES {
        let cut = last_boundary(bytes, MAX_NAME_BYTES as nat) as int;
        let nearby = lemma_boundary_nearby(bytes, MAX_NAME_BYTES as int);
        assert(nearby <= cut);
        assert(sent =~= bytes.subrange(0, cut));
        valid_utf8_split(bytes, cut);
        vstd::utf8::decode_utf8_split(bytes, cut);
        vstd::utf8::decode_utf8_encode_utf8(sent);
    }
    lemma_be_bytes_len(sent.len(), 4);
    law_read_back_value(sent.len(), 4);
    assert(handshake(name).take(4) =~= be_bytes(sent.len(), 4));
    assert(handshake(name).skip(4) =~= sent);
}

/// A character takes at most four bytes.
proof fn lemma_name_fits(name: Seq<char>)
    ensures
        encode_utf8(name).len() <= 4 * name.len(),
    decreases name.len(),
{
    if name.len() > 0 {
        lemma_name_fits(name.drop_first());
    }
}

/// A node that has a name fit for a peer name is known to the server by that
/// name.
pub proof fn law_peer_known_by_its_name(name: Seq<char>)
    requires
        0 < name.len() <= MAX_NAME_CHARS,
        forall|i: int| 0 <= i < name.len() ==> name_char(#[trigger] name[i]),
    ensures
        0 < be_value(handshake(name).take(4)) <= MAX_NAME_BYTES,
        sanitized(announced(handshake(name).skip(4))) == name,
{
    lemma_name_fits(name);
    law_handshake_read_back(name);
    law_clean_names_are_kept(name);
}

/// Two ways to choose characters that choose the same ones filter alike.
proof fn lemma_filter_alike(name: Seq<char>, f: spec_fn(char) -> bool, g: spec_fn(char) -> bool)
    requires
        forall|c: char| #[trigger] f(c) == g(c),
    ensures
        name.filter(f) == name.filter(g),
    decreases name.len(),
{
    reveal(Seq::filter);
    if name.len() > 0 {
        lemma_filter_alike(name.drop_last(), f, g);
        assert(f(name.last()) == g(name.last()));
    }
}

/// Of a name are kept, in order and up to 64, exactly the ASCII letters and
/// digits, hyphens, underscores and dots, and what outside ASCII Unicode counts
/// as alphanumeric. Where none is left the name is `unknown`.
pub proof fn law_what_is_kept_of_a_name(name: Seq<char>)
    ensures
        ({
            let kept = name.filter(
                |c: char|
                    'a' <= c <= 'z' || 'A' <= c <= 'Z' || '0' <= c <= '9' || c == '-' || c == '_'
                        || c == '.' || ((c as u32) >= 128 && unicode_alphanumeric(c)),
            );
            sanitized(name) == if kept.len() == 0 {
                "unknown"@
            } else if kept.len() <= 64 {
                kept
            } else {
                kept.take(64)
            }
        }),
{
    let allowed = |c: char|
        'a' <= c <= 'z' || 'A' <= c <= 'Z' || '0' <= c <= '9' || c == '-' || c == '_' || c == '.'
            || ((c as u32) >= 128 && unicode_alphanumeric(c));
    let keep = |c: char| name_char(c);
    assert forall|c: char| #[trigger] keep(c) == allowed(c) by {}
    lemma_filter_alike(name, keep, allowed);
    assert(kept_chars(name) == if name.filter(allowed).len() <= 64 {
        name.filter(allowed)
    } else {
        name.filter(allowed).take(64)
    });
}

/// A name of 1 to 64 ASCII letters, digits, hyphens, underscores and dots is
/// kept as it is, so that different names stay different.
pub proof fn law_plain_names_are_kept(name: Seq<char>)
    requires
        0 < name.len() <= 64,
        forall|i: int|
            0 <= i < name.len() ==> 'a' <= #[trigger] name[i] <= 'z' || 'A' <= name[i] <= 'Z'
                || '0' <= name[i] <= '9' || name[i] == '-' || name[i] == '_' || name[i] == '.',
    ensures
        sanitized(name) == name,
        sanitized(announced(handshake(name).skip(4))) == name,
{
    assert forall|i: int| 0 <= i < name.len() implies name_char(#[trigger] name[i]) by {}
    law_clean_names_are_kept(name);
    law_peer_known_by_its_name(name);
}

/// Bytes that are UTF-8 announce the text that they encode, any others nothing.
pub proof fn law_announced_name(bytes: Seq<u8>, text: Seq<char>)
    ensures
        bytes == encode_utf8(text) ==> announced(bytes) == text,
        !valid_utf8(bytes) ==> announced(bytes).len() == 0,
{
    encode_utf8_valid_utf8(text);
    encode_utf8_decode_utf8(text);
}

/// A packet is the sequence number and then the timestamp, each in eight bytes,
/// the highest first.
pub proof fn law_packet_layout(seq: u64, timestamp: u64, i: int)
    requires
        0 <= i < 8,
    ensures
        packet(seq, timestamp).len() == 16,
        packet(seq, timestamp)[i] == (seq as int / pow(256, (7 - i) as nat)) % 256,
        packet(seq, timestamp)[8 + i] == (timestamp as int / pow(256, (7 - i) as nat)) % 256,
{
    law_bytes_are_digits(seq as nat, 8, i);
    law_bytes_are_digits(timestamp as nat, 8, i);
}

/// A handshake is the number of name bytes in four bytes, the highest first, and
/// the name bytes: the longest beginning of the name in UTF-8 that ends between
/// two characters and is not longer than 256 bytes.
pub proof fn law_handshake_layout(name: Seq<char>)
    ensures
        ({
            let out = handshake(name);
            let len = out.len() - 4;
            &&& 0 <= len <= 256
            &&& out[0] == 0
            &&& out[1] == 0
            &&& out[2] == len / 256
            &&& out[3] == len % 256
            &&& out.skip(4) == encode_utf8(name).take(len)
            &&& is_char_boundary(encode_utf8(name), len)
            &&& forall|i: int|
                len < i <= 256 ==> !#[trigger] is_char_boundary(encode_utf8(name), i)
        }),
{
    let bytes = encode_utf8(name);
    let sent = name_bytes(name);
    let out = handshake(name);
    law_handshake_read_back(name);
    lemma_be_bytes_len(sent.len(), 4);
    reveal_with_fuel(be_bytes, 5);
    assert(sent.len() / 256 / 256 == 0);
    assert(out[0] == be_bytes(sent.len(), 4)[0]);
    assert(out[1] == be_bytes(sent.len(), 4)[1]);
    assert(out[2] == be_bytes(sent.len(), 4)[2]);
    assert(out[3] == be_bytes(sent.len(), 4)[3]);
    encode_utf8_valid_utf8(name);
    lemma_last_boundary(bytes, MAX_NAME_BYTES as nat);
    vstd::utf8::is_char_boundary_start_end_of_seq(bytes);
    if bytes.len() <= MAX_NAME_BYTES {
        assert(sent =~= bytes.take(bytes.len() as int));
        assert forall|i: int| bytes.len() < i implies !#[trigger] is_char_boundary(bytes, i) by {
            lemma_no_boundary_behind_the_end(bytes, i);
        }
    }
}

proof fn lemma_no_boundary_behind_the_end(bytes: Seq<u8>, i: int)
    requires
        valid_utf8(bytes),
        i > bytes.len(),
    ensures
        !is_char_boundary(bytes, i),
{
}

} // verus!
