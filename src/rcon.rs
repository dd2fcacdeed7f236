//! The RCON wire protocol: little-endian framed packets over TCP, an
//! authentication handshake and the classification of inbound frames.

use vstd::prelude::*;
use vstd::utf8::{decode_utf8, encode_utf8, valid_utf8};

use crate::model::Error;

verus! {

/// Packet type of the client's authentication request.
pub const SERVERDATA_AUTH: i32 = 3;

/// Packet type of a command sent by the client.
pub const SERVERDATA_EXECCOMMAND: i32 = 2;

/// Packet type that the server's authentication response must carry.
pub const SERVERDATA_AUTH_RESPONSE: i32 = 2;

/// Bytes that follow the size field besides the body: id, type and two NULs.
pub const PACKET_OVERHEAD: usize = 10;

/// Length of the server's answer to an authentication request with no body.
pub const AUTH_RESPONSE_LEN: usize = 14;

/// The type field of an RCON packet.
#[derive(Debug, Clone, Copy, PartialEq, Eq, Structural)]
pub struct RconMessageType(pub i32);

/// One output event of a live RCON session.
#[derive(Debug, Clone)]
pub enum RconOutput {
    CommandResponse(String),
    Error(String),
    ConnectionClosed,
}

/// A command to send over an instance's RCON connection.
#[derive(Debug)]
pub struct RconMessage {
    pub cmd: String,
}

/// A request for a fresh subscription to an instance's RCON output.
#[derive(Debug)]
pub struct RconSubscription;

/// Notice that an instance's RCON connection has closed.
#[derive(Debug)]
pub struct RconDown;

/// The unsigned value of four little-endian bytes.
pub open spec fn le_u32_of(b: Seq<u8>) -> int {
    b[0] as int + 256 * (b[1] as int) + 65536 * (b[2] as int) + 16777216 * (b[3] as int)
}

/// The signed value of four little-endian bytes (two's complement).
pub open spec fn le_i32_of(b: Seq<u8>) -> int {
    let u = le_u32_of(b);
    if u < 0x8000_0000 {
        u
    } else {
        u - 0x1_0000_0000
    }
}

/// The four little-endian bytes of a 32-bit signed integer.
pub open spec fn le_bytes_of(v: int) -> Seq<u8> {
    let u = if v >= 0 {
        v
    } else {
        v + 0x1_0000_0000
    };
    seq![(u % 256) as u8, ((u / 256) % 256) as u8, ((u / 65536) % 256) as u8, (u / 16777216) as u8]
}

/// The wire form of a packet: size, request id, type, body and two NULs.
pub open spec fn packet_of(request_id: i32, kind: i32, body: Seq<u8>) -> Seq<u8> {
    le_bytes_of(body.len() + 10int) + le_bytes_of(request_id as int) + le_bytes_of(kind as int) + body
        + seq![0u8, 0u8]
}

/// Whether a body fits in a packet whose size field is a signed 32-bit integer.
pub open spec fn fits_packet(body: Seq<u8>) -> bool {
    body.len() + 10 <= i32::MAX
}

/// The server accepts authentication with request id 0 and type AUTH_RESPONSE.
pub open spec fn auth_accepted(response: Seq<u8>) -> bool {
    le_i32_of(response.subrange(4, 8)) == 0 && le_i32_of(response.subrange(8, 12))
        == SERVERDATA_AUTH_RESPONSE
}

/// The bytes of "Error", the prefix that marks an error output.
pub open spec fn error_prefix() -> Seq<u8> {
    seq![69u8, 114u8, 114u8, 111u8, 114u8]
}

/// The payload of an inbound frame (the bytes after its size field): what
/// lies between the id and type fields and the two trailing NULs.
pub open spec fn payload_of(frame: Seq<u8>) -> Seq<u8> {
    frame.subrange(8, frame.len() - 2)
}

/// Whether an inbound frame is well formed: long enough for its fixed
/// fields, with a payload in UTF-8.
pub open spec fn frame_ok(frame: Seq<u8>) -> bool {
    frame.len() >= 10 && valid_utf8(payload_of(frame))
}

/// Whether a well-formed frame reports an error.
pub open spec fn frame_is_error(frame: Seq<u8>) -> bool {
    let p = payload_of(frame);
    p.len() >= 5 && p.subrange(0, 5) == error_prefix()
}

/// The output event that a well-formed frame stands for.
pub open spec fn output_matches(frame: Seq<u8>, out: RconOutput) -> bool {
    let text = decode_utf8(payload_of(frame));
    if frame_is_error(frame) {
        out matches RconOutput::Error(s) && s@ == text
    } else {
        out matches RconOutput::CommandResponse(s) && s@ == text
    }
}

/// Relies on `String::from_utf8`: it succeeds exactly on valid UTF-8, and the
/// string then holds the characters that the bytes encode.
#[verifier::external_body]
fn string_from_utf8(bytes: Vec<u8>) -> (r: Option<String>)
    ensures
        r is Some <==> valid_utf8(bytes@),
        r is Some ==> r->Some_0@ == decode_utf8(bytes@),
{
    String::from_utf8(bytes).ok()
}

/// Appends the four little-endian bytes of `v`.
fn push_le_i32(out: &mut Vec<u8>, v: i32)
    ensures
        final(out)@ == old(out)@ + le_bytes_of(v as int),
{
    let u: u32 = if v >= 0 {
        v as u32
    } else {
        ((v + 2147483647 + 1) as u32) + 2147483648
    };
    assert(u as int == if v >= 0 { v as int } else { v + 0x1_0000_0000 });
    out.push((u % 256) as u8);
    out.push(((u / 256) % 256) as u8);
    out.push(((u / 65536) % 256) as u8);
    out.push((u / 16777216) as u8);
    assert(final(out)@ =~= old(out)@ + le_bytes_of(v as int));
}

/// The signed integer held by four little-endian bytes.
pub fn i32_from_le(b0: u8, b1: u8, b2: u8, b3: u8) -> (r: i32)
    ensures
        r as int == le_i32_of(seq![b0, b1, b2, b3]),
{
    let u: u32 = b0 as u32 + 256 * (b1 as u32) + 65536 * (b2 as u32) + 16777216 * (b3 as u32);
    if u < 0x8000_0000 {
        u as i32
    } else {
        ((u - 0x8000_0000) as i32) - 2147483647 - 1
    }
}

/// Frames `body` as a packet with the given id and type; fails with
/// `PacketTooLarge` when the size field cannot hold its length.
pub fn build_packet(request_id: i32, packet_type: RconMessageType, body: String) -> (r: Result<
    Vec<u8>,
    Error,
>)
    ensures
        fits_packet(encode_utf8(body@)) ==> r == Ok::<Vec<u8>, Error>(r->Ok_0) && r->Ok_0@
            == packet_of(request_id, packet_type.0, encode_utf8(body@)),
        !fits_packet(encode_utf8(body@)) ==> r == Err::<Vec<u8>, Error>(Error::PacketTooLarge),
{
    let bytes = body.as_str().as_bytes();
    if bytes.len() > 2147483647 - PACKET_OVERHEAD {
        return Err(Error::PacketTooLarge);
    }
    let size = (bytes.len() + PACKET_OVERHEAD) as i32;
    let mut packet: Vec<u8> = Vec::new();
    push_le_i32(&mut packet, size);
    push_le_i32(&mut packet, request_id);
    push_le_i32(&mut packet, packet_type.0);
    packet.extend_from_slice(bytes);
    packet.push(0);
    packet.push(0);
    assert(packet@ =~= packet_of(request_id, packet_type.0, encode_utf8(body@)));
    Ok(packet)
}

/// The authentication request: type AUTH, request id 0, the password as body.
pub fn auth_packet(password: String) -> (r: Result<Vec<u8>, Error>)
    ensures
        fits_packet(encode_utf8(password@)) ==> r == Ok::<Vec<u8>, Error>(r->Ok_0) && r->Ok_0@
            == packet_of(0, SERVERDATA_AUTH, encode_utf8(password@)),
        !fits_packet(encode_utf8(password@)) ==> r == Err::<Vec<u8>, Error>(Error::PacketTooLarge),
{
    build_packet(0, RconMessageType(SERVERDATA_AUTH), password)
}

/// The request-id counter of an authenticated connection: commands are
/// numbered from 1 upward, one id each, in the order they are framed.
pub struct RconSession {
    next_id: i32,
    sent: Ghost<Seq<Seq<u8>>>,
}

impl RconSession {
    /// The bodies of the commands framed so far, in order.
    pub closed spec fn sent(&self) -> Seq<Seq<u8>> {
        self.sent@
    }

    /// The counter is one past the number of commands framed.
    pub closed spec fn wf(&self) -> bool {
        self.next_id == self.sent@.len() + 1
    }

    /// Checks the server's answer to the authentication request. On success
    /// the session has framed no command yet; otherwise it fails with
    /// `AuthFailed`.
    pub fn authenticate(response: &[u8; 14]) -> (r: Result<RconSession, Error>)
        ensures
            r is Ok <==> auth_accepted(response@),
            r is Ok ==> r->Ok_0.wf() && r->Ok_0.sent() == Seq::<Seq<u8>>::empty(),
            r is Err ==> r == Err::<RconSession, Error>(Error::AuthFailed),
    {
        let id = i32_from_le(response[4], response[5], response[6], response[7]);
        let kind = i32_from_le(response[8], response[9], response[10], response[11]);
        assert(response@.subrange(4, 8) =~= seq![response@[4], response@[5], response@[6], response@[7]]);
        assert(response@.subrange(8, 12) =~= seq![response@[8], response@[9], response@[10], response@[11]]);
        if id == 0 && kind == SERVERDATA_AUTH_RESPONSE {
            Ok(RconSession { next_id: 1, sent: Ghost(Seq::empty()) })
        } else {
            Err(Error::AuthFailed)
        }
    }

    /// Frames `cmd` as the next command: the n-th command of the session
    /// (counting from 1) carries request id n. Fails, changing nothing, with
    /// `PacketTooLarge` when the command does not fit a packet and with
    /// `IdsExhausted` once the largest id has been used.
    pub fn command_packet(&mut self, cmd: String) -> (r: Result<Vec<u8>, Error>)
        requires
            old(self).wf(),
        ensures
            final(self).wf(),
            old(self).sent().len() + 1 < i32::MAX && fits_packet(encode_utf8(cmd@)) ==> r
                == Ok::<Vec<u8>, Error>(r->Ok_0) && r->Ok_0@ == packet_of(
                (old(self).sent().len() + 1) as i32,
                SERVERDATA_EXECCOMMAND,
                encode_utf8(cmd@),
            ) && final(self).sent() == old(self).sent().push(encode_utf8(cmd@)),
            old(self).sent().len() + 1 == i32::MAX ==> r == Err::<Vec<u8>, Error>(
                Error::IdsExhausted,
            ),
            old(self).sent().len() + 1 < i32::MAX && !fits_packet(encode_utf8(cmd@)) ==> r
                == Err::<Vec<u8>, Error>(Error::PacketTooLarge),
            r is Err ==> final(self).sent() == old(self).sent(),
    {
        if self.next_id == i32::MAX {
            return Err(Error::IdsExhausted);
        }
        let ghost body = encode_utf8(cmd@);
        let packet = build_packet(self.next_id, RconMessageType(SERVERDATA_EXECCOMMAND), cmd)?;
        self.next_id = self.next_id + 1;
        self.sent = Ghost(self.sent@.push(body));
        Ok(packet)
    }
}

/// Four little-endian bytes read back give the non-negative value written.
pub proof fn lemma_le_round_trip(v: int)
    requires
        0 <= v < 0x8000_0000,
    ensures
        le_i32_of(le_bytes_of(v)) == v,
{
    let b = le_bytes_of(v);
    assert(b[0] as int == v % 256);
    assert(b[1] as int == (v / 256) % 256);
    assert(b[2] as int == (v / 65536) % 256);
    assert(b[3] as int == v / 16777216);
    assert(v == v % 256 + 256 * ((v / 256) % 256) + 65536 * ((v / 65536) % 256) + 16777216 * (v
        / 16777216)) by (nonlinear_arith)
        requires
            0 <= v < 0x8000_0000,
    ;
}

/// Over a whole session the n-th command goes out on the wire with request
/// id n: the id field of its packet reads back as n.
pub proof fn lemma_command_ids(sent: Seq<Seq<u8>>, cmd: Seq<u8>)
    requires
        sent.len() + 1 < i32::MAX,
        fits_packet(cmd),
    ensures
        le_i32_of(packet_of((sent.len() + 1) as i32, SERVERDATA_EXECCOMMAND, cmd).subrange(4, 8))
            == sent.len() + 1,
{
    let n: int = sent.len() + 1int;
    let p = packet_of(n as i32, SERVERDATA_EXECCOMMAND, cmd);
    assert(p.subrange(4, 8) =~= le_bytes_of(n));
    lemma_le_round_trip(n);
}

/// The number of bytes that follow a frame's size field, read from that
/// field; fails with `Io` when it is too small to hold the fixed fields.
pub fn frame_len(size: &[u8; 4]) -> (r: Result<usize, Error>)
    ensures
        le_i32_of(size@) >= 10 ==> r == Ok::<usize, Error>(le_i32_of(size@) as usize),
        le_i32_of(size@) < 10 ==> r == Err::<usize, Error>(Error::Io),
{
    let n = i32_from_le(size[0], size[1], size[2], size[3]);
    assert(size@ =~= seq![size@[0], size@[1], size@[2], size@[3]]);
    if n < 10 {
        Err(Error::Io)
    } else {
        Ok(n as usize)
    }
}

/// Turns an inbound frame (the bytes after its size field) into an output
/// event: an error when its payload begins with "Error", a command response
/// otherwise. Fails with `Io` on a frame that is too short or whose payload
/// is not UTF-8.
pub fn decode_response(frame: &Vec<u8>) -> (r: Result<RconOutput, Error>)
    ensures
        frame_ok(frame@) ==> r is Ok && output_matches(frame@, r->Ok_0),
        !frame_ok(frame@) ==> r == Err::<RconOutput, Error>(Error::Io),
{
    if frame.len() < 10 {
        return Err(Error::Io);
    }
    let end = frame.len() - 2;
    let mut payload: Vec<u8> = Vec::new();
    let mut i: usize = 8;
    while i < end
        invariant
            8 <= i <= end,
            end == frame@.len() - 2,
            payload@ == frame@.subrange(8, i as int),
        decreases end - i,
    {
        payload.push(frame[i]);
        i += 1;
        assert(payload@ =~= frame@.subrange(8, i as int));
    }
    let is_error = payload.len() >= 5 && payload[0] == 69 && payload[1] == 114 && payload[2] == 114
        && payload[3] == 111 && payload[4] == 114;
    assert(is_error == frame_is_error(frame@)) by {
        if payload@.len() >= 5 {
            assert(is_error == (payload@.subrange(0, 5) =~= error_prefix()));
        }
    }
    match string_from_utf8(payload) {
        Some(text) => {
            if is_error {
                Ok(RconOutput::Error(text))
            } else {
                Ok(RconOutput::CommandResponse(text))
            }
        },
        None => Err(Error::Io),
    }
}

} // verus!
