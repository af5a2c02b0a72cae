//! How the server answers each packet of the offline handshake.
//!
//! Receiving and sending datagrams happens elsewhere; here a packet's bytes
//! come in and the bytes of the answer, if any, go out.
use crate::buffer::{buffer_contents, buffer_from_slice, buffer_new, buffer_put_slice, buffer_put_u64, buffer_put_u8};
use crate::error::{NetworkError, Result};
use crate::raknet::motd::Motd;
use crate::raknet::protocol::address::RakNetAddress;
use crate::raknet::protocol::connection_request_accepted::get_raknet_timestamp;
use crate::raknet::protocol::{
    magic, magic_bytes, ConnectionRequest, ConnectionRequestAccepted, OpenConnectionReply1,
    OpenConnectionReply2, OpenConnectionRequest1, OpenConnectionRequest2, UnconnectedPing,
    UnconnectedPong, DEFAULT_SERVER_MAX_MTU, ID_CONNECTION_REQUEST, ID_CONNECTION_REQUEST_ACCEPTED,
    ID_INCOMPATIBLE_PROTOCOL_VERSION, ID_OPEN_CONNECTION_REPLY_1, ID_OPEN_CONNECTION_REPLY_2,
    ID_OPEN_CONNECTION_REQUEST_1, ID_OPEN_CONNECTION_REQUEST_2, ID_UNCONNECTED_PING,
    ID_UNCONNECTED_PONG, RAKNET_PROTOCOL_VERSION,
};
use crate::text::{decimal, lemma_decimal_len_u64, lemma_utf8_len};
use crate::wire::{u16_from_be, u16_to_be, u64_to_be};
use bytes::BytesMut;
use vstd::prelude::*;

verus! {

/// The port advertised for IPv4: the socket's own port, or 19132 when it is
/// not known.
pub open spec fn advertised_port_v4(local_port: Option<u16>) -> u16 {
    match local_port {
        Some(p) => p,
        None => 19132,
    }
}

/// The port advertised for IPv6: the socket's own port, or 19133 when it is
/// not known.
pub open spec fn advertised_port_v6(local_port: Option<u16>) -> u16 {
    match local_port {
        Some(p) => p,
        None => 19133,
    }
}

/// Whether `m` is what this server advertises: a survival world named
/// "Bedrock World" on server "Sapphire", protocol 800 of version 1.21.82,
/// with no players of fifty.
pub open spec fn is_server_motd(m: Motd, server_guid: u64, local_port: Option<u16>) -> bool {
    &&& m.server_name@ == "Sapphire"@
    &&& m.protocol_version == 800
    &&& m.minecraft_version@ == "1.21.82"@
    &&& m.player_count == 0
    &&& m.max_players == 50
    &&& m.server_guid == server_guid
    &&& m.world_name@ == "Bedrock World"@
    &&& m.game_mode@ == "Survival"@
    &&& m.game_mode_id == 1
    &&& m.port_v4 == advertised_port_v4(local_port)
    &&& m.port_v6 == advertised_port_v6(local_port)
}

/// The text that this server advertises.
pub open spec fn server_motd_text(server_guid: u64, local_port: Option<u16>) -> Seq<char> {
    "MCPE;"@ + "Sapphire"@ + ";"@ + decimal(800) + ";"@ + "1.21.82"@ + ";"@ + decimal(0) + ";"@
        + decimal(50) + ";"@ + decimal(server_guid as nat) + ";"@ + "Bedrock World"@ + ";"@
        + "Survival"@ + ";"@ + decimal(1) + ";"@ + decimal(advertised_port_v4(local_port) as nat)
        + ";"@ + decimal(advertised_port_v6(local_port) as nat) + ";"@
}

/// The message of the day this server advertises.
pub fn server_motd(server_guid: u64, local_port: Option<u16>) -> (m: Motd)
    ensures
        is_server_motd(m, server_guid, local_port),
        m.spec_text() == server_motd_text(server_guid, local_port),
{
    let port_v4 = match local_port {
        Some(p) => p,
        None => 19132,
    };
    let port_v6 = match local_port {
        Some(p) => p,
        None => 19133,
    };
    Motd {
        server_name: "Sapphire".to_owned(),
        protocol_version: 800,
        minecraft_version: "1.21.82".to_owned(),
        player_count: 0,
        max_players: 50,
        server_guid,
        world_name: "Bedrock World".to_owned(),
        game_mode: "Survival".to_owned(),
        game_mode_id: 1,
        port_v4,
        port_v6,
    }
}

/// The advertised text fits a pong: it is far shorter than 65535 bytes.
pub proof fn lemma_server_motd_fits(server_guid: u64, local_port: Option<u16>)
    ensures
        vstd::utf8::encode_utf8(server_motd_text(server_guid, local_port)).len() <= 1000,
{
    reveal_strlit("MCPE;");
    reveal_strlit("Sapphire");
    reveal_strlit(";");
    reveal_strlit("1.21.82");
    reveal_strlit("Bedrock World");
    reveal_strlit("Survival");
    lemma_decimal_len_u64(800);
    lemma_decimal_len_u64(0);
    lemma_decimal_len_u64(50);
    lemma_decimal_len_u64(server_guid);
    lemma_decimal_len_u64(1);
    lemma_decimal_len_u64(advertised_port_v4(local_port) as u64);
    lemma_decimal_len_u64(advertised_port_v6(local_port) as u64);
    lemma_utf8_len(server_motd_text(server_guid, local_port));
}

/// The answer to a ping whose payload is `payload`: a pong that echoes the
/// ping's time and carries the server's GUID and message.
pub open spec fn ping_response(payload: Seq<u8>, server_guid: u64, local_port: Option<u16>) -> Seq<u8> {
    let text = vstd::utf8::encode_utf8(server_motd_text(server_guid, local_port));
    seq![ID_UNCONNECTED_PONG] + u64_to_be(UnconnectedPing::spec_decode(payload).time) + u64_to_be(
        server_guid,
    ) + magic() + u16_to_be(text.len() as u16) + text
}

/// The smaller of two MTUs.
pub open spec fn min_mtu(a: u16, b: u16) -> u16 {
    if a < b { a } else { b }
}

/// The answer to a first open-connection request: the incompatible-protocol
/// notice when the client's version differs from ours, otherwise the first
/// reply with the client's MTU capped at ours.
pub open spec fn open_connection_request1_response(payload: Seq<u8>, server_guid: u64) -> Seq<u8> {
    let request = OpenConnectionRequest1::spec_decode(payload, payload.len() as usize);
    if request.protocol_version != RAKNET_PROTOCOL_VERSION {
        seq![ID_INCOMPATIBLE_PROTOCOL_VERSION, RAKNET_PROTOCOL_VERSION] + magic() + u64_to_be(
            server_guid,
        )
    } else {
        seq![ID_OPEN_CONNECTION_REPLY_1] + OpenConnectionReply1 {
            server_guid,
            use_security: false,
            mtu_size: min_mtu(request.estimated_mtu, DEFAULT_SERVER_MAX_MTU),
        }.spec_encode()
    }
}

/// The answer to a second open-connection request: the second reply, with
/// the client's address and its MTU capped at ours.
pub open spec fn open_connection_request2_response(
    payload: Seq<u8>,
    server_guid: u64,
    client_address: RakNetAddress,
) -> Seq<u8> {
    let request = OpenConnectionRequest2::spec_decode(payload);
    seq![ID_OPEN_CONNECTION_REPLY_2] + OpenConnectionReply2 {
        server_guid,
        client_address,
        mtu_size: min_mtu(request.mtu_size, DEFAULT_SERVER_MAX_MTU),
        use_encryption: false,
    }.spec_encode()
}

/// The answer to a connection request, given the server's clock: the
/// acceptance, echoing the request's timestamp.
pub open spec fn connection_request_response(
    payload: Seq<u8>,
    client_address: RakNetAddress,
    server_timestamp: u64,
) -> Seq<u8> {
    let request = ConnectionRequest::spec_decode(payload);
    seq![ID_CONNECTION_REQUEST_ACCEPTED] + ConnectionRequestAccepted {
        client_address,
        system_index: 0,
        request_timestamp: request.request_timestamp,
        server_timestamp,
    }.spec_encode()
}

/// Answers an offline ping with a pong.
pub fn handle_unconnected_ping(incoming: &[u8], server_guid: u64, local_port: Option<u16>) -> (r:
    Result<BytesMut>)
    ensures
        UnconnectedPing::spec_accepts(incoming@) ==> (r matches Ok(out) && buffer_contents(out)
            == ping_response(incoming@, server_guid, local_port)),
        !UnconnectedPing::spec_accepts(incoming@) ==> (r matches Err(e)
            && UnconnectedPing::spec_failure(incoming@, e)),
{
    let mut bytes = buffer_from_slice(incoming);
    let ping = match UnconnectedPing::deserialize(&mut bytes) {
        Ok(p) => p,
        Err(e) => return Err(e),
    };
    let motd = server_motd(server_guid, local_port);
    let pong = UnconnectedPong { time: ping.time, guid: server_guid, motd };
    proof {
        lemma_server_motd_fits(server_guid, local_port);
    }
    let mut response_buf = buffer_new();
    buffer_put_u8(&mut response_buf, ID_UNCONNECTED_PONG);
    match pong.serialize(&mut response_buf) {
        Ok(()) => {},
        Err(e) => return Err(e),
    }
    assert(buffer_contents(response_buf) =~= ping_response(incoming@, server_guid, local_port));
    Ok(response_buf)
}

/// Answers a first open-connection request.
pub fn handle_open_connection_request1(incoming: &[u8], server_guid: u64) -> (r: Result<BytesMut>)
    ensures
        OpenConnectionRequest1::spec_accepts(incoming@) ==> (r matches Ok(out) && buffer_contents(out)
            == open_connection_request1_response(incoming@, server_guid)),
        !OpenConnectionRequest1::spec_accepts(incoming@) ==> (r matches Err(e)
            && OpenConnectionRequest1::spec_failure(incoming@, e)),
{
    let slice_length = incoming.len();
    let mut bytes = buffer_from_slice(incoming);
    let request = match OpenConnectionRequest1::deserialize(&mut bytes, slice_length) {
        Ok(r) => r,
        Err(e) => return Err(e),
    };
    if request.protocol_version != RAKNET_PROTOCOL_VERSION {
        let mut response_buf = buffer_new();
        buffer_put_u8(&mut response_buf, ID_INCOMPATIBLE_PROTOCOL_VERSION);
        buffer_put_u8(&mut response_buf, RAKNET_PROTOCOL_VERSION);
        buffer_put_slice(&mut response_buf, magic_bytes());
        buffer_put_u64(&mut response_buf, server_guid);
        assert(buffer_contents(response_buf) =~= open_connection_request1_response(
            incoming@,
            server_guid,
        ));
        return Ok(response_buf);
    }
    let server_chosen_mtu = if request.estimated_mtu < DEFAULT_SERVER_MAX_MTU {
        request.estimated_mtu
    } else {
        DEFAULT_SERVER_MAX_MTU
    };
    let reply = OpenConnectionReply1 { server_guid, use_security: false, mtu_size: server_chosen_mtu };
    let mut response_buf = buffer_new();
    buffer_put_u8(&mut response_buf, ID_OPEN_CONNECTION_REPLY_1);
    let _ = reply.serialize(&mut response_buf);
    assert(buffer_contents(response_buf) =~= open_connection_request1_response(incoming@, server_guid));
    Ok(response_buf)
}

/// Answers a second open-connection request from `client_address`.
pub fn handle_open_connection_request2(
    incoming: &[u8],
    server_guid: u64,
    client_address: RakNetAddress,
) -> (r: Result<BytesMut>)
    ensures
        OpenConnectionRequest2::spec_accepts(incoming@) ==> (r matches Ok(out) && buffer_contents(out)
            == open_connection_request2_response(incoming@, server_guid, client_address)),
        !OpenConnectionRequest2::spec_accepts(incoming@) ==> (r matches Err(e)
            && OpenConnectionRequest2::spec_failure(incoming@, e)),
{
    let mut bytes = buffer_from_slice(incoming);
    let request = match OpenConnectionRequest2::deserialize(&mut bytes) {
        Ok(r) => r,
        Err(e) => return Err(e),
    };
    let final_mtu = if request.mtu_size < DEFAULT_SERVER_MAX_MTU {
        request.mtu_size
    } else {
        DEFAULT_SERVER_MAX_MTU
    };
    let reply = OpenConnectionReply2 {
        server_guid,
        client_address,
        mtu_size: final_mtu,
        use_encryption: false,
    };
    let mut response_buf = buffer_new();
    buffer_put_u8(&mut response_buf, ID_OPEN_CONNECTION_REPLY_2);
    let _ = reply.serialize(&mut response_buf);
    assert(buffer_contents(response_buf) =~= open_connection_request2_response(
        incoming@,
        server_guid,
        client_address,
    ));
    Ok(response_buf)
}

/// Answers a connection request from `client_address`, stamping the answer
/// with `server_timestamp`.
pub fn accept_connection_request(
    incoming: &[u8],
    client_address: RakNetAddress,
    server_timestamp: u64,
) -> (r: Result<BytesMut>)
    ensures
        ConnectionRequest::spec_accepts(incoming@) ==> (r matches Ok(out) && buffer_contents(out)
            == connection_request_response(incoming@, client_address, server_timestamp)),
        !ConnectionRequest::spec_accepts(incoming@) ==> (r matches Err(e)
            && ConnectionRequest::spec_failure(incoming@, e)),
{
    let mut bytes = buffer_from_slice(incoming);
    let request = match ConnectionRequest::deserialize(&mut bytes) {
        Ok(r) => r,
        Err(e) => return Err(e),
    };
    let reply = ConnectionRequestAccepted {
        client_address,
        system_index: 0,
        request_timestamp: request.request_timestamp,
        server_timestamp,
    };
    proof {
        crate::raknet::protocol::connection_request_accepted::lemma_placeholder_len(10);
    }
    let mut response_buf = buffer_new();
    buffer_put_u8(&mut response_buf, ID_CONNECTION_REQUEST_ACCEPTED);
    let _ = reply.serialize(&mut response_buf);
    assert(buffer_contents(response_buf) =~= connection_request_response(
        incoming@,
        client_address,
        server_timestamp,
    ));
    Ok(response_buf)
}

/// Answers a connection request from `client_address`, stamped with the
/// current RakNet time.
pub fn handle_connection_request(incoming: &[u8], client_address: RakNetAddress) -> (r: Result<
    BytesMut,
>)
    ensures
        ConnectionRequest::spec_accepts(incoming@) ==> (r matches Ok(out) && exists|t: u64|
            buffer_contents(out) == connection_request_response(incoming@, client_address, t)),
        !ConnectionRequest::spec_accepts(incoming@) ==> (r matches Err(e)
            && ConnectionRequest::spec_failure(incoming@, e)),
{
    let server_timestamp = get_raknet_timestamp();
    accept_connection_request(incoming, client_address, server_timestamp)
}

/// The server never agrees to an MTU above its own maximum, nor above the
/// client's; it takes the client's whenever that fits.
pub proof fn lemma_mtu_agreement(requested: u16)
    ensures
        min_mtu(requested, DEFAULT_SERVER_MAX_MTU) <= DEFAULT_SERVER_MAX_MTU,
        min_mtu(requested, DEFAULT_SERVER_MAX_MTU) <= requested,
        requested <= DEFAULT_SERVER_MAX_MTU ==> min_mtu(requested, DEFAULT_SERVER_MAX_MTU)
            == requested,
{
}

/// A pong echoes the ping's time byte for byte: bytes one to eight of the
/// answer are the first eight bytes of the ping.
pub proof fn lemma_pong_echoes_ping_time(payload: Seq<u8>, server_guid: u64, local_port: Option<u16>)
    requires
        UnconnectedPing::spec_accepts(payload),
    ensures
        ping_response(payload, server_guid, local_port)[0] == ID_UNCONNECTED_PONG,
        ping_response(payload, server_guid, local_port).subrange(1, 9) == payload.take(8),
        ping_response(payload, server_guid, local_port).subrange(9, 17) == u64_to_be(server_guid),
{
    crate::wire::lemma_u64_bytes_roundtrip(payload);
    let r = ping_response(payload, server_guid, local_port);
    assert(r.subrange(1, 9) =~= u64_to_be(UnconnectedPing::spec_decode(payload).time));
    assert(r.subrange(9, 17) =~= u64_to_be(server_guid));
}

/// An acceptance echoes the request's timestamp byte for byte, and ends with
/// the server's.
pub proof fn lemma_acceptance_echoes_request_time(
    payload: Seq<u8>,
    client_address: RakNetAddress,
    server_timestamp: u64,
)
    requires
        ConnectionRequest::spec_accepts(payload),
    ensures
        ({
            let r = connection_request_response(payload, client_address, server_timestamp);
            &&& r[0] == ID_CONNECTION_REQUEST_ACCEPTED
            &&& r.subrange(r.len() - 16, r.len() - 8) == payload.subrange(8, 16)
            &&& r.subrange(r.len() - 8, r.len() as int) == u64_to_be(server_timestamp)
        }),
{
    crate::wire::lemma_u64_bytes_roundtrip(payload.skip(8));
    let r = connection_request_response(payload, client_address, server_timestamp);
    let request = ConnectionRequest::spec_decode(payload);
    assert(r.subrange(r.len() - 16, r.len() - 8) =~= u64_to_be(request.request_timestamp));
    assert(payload.skip(8).take(8) =~= payload.subrange(8, 16));
    assert(r.subrange(r.len() - 8, r.len() as int) =~= u64_to_be(server_timestamp));
}

/// The layout of an acceptance: `0x10`, the client's address, a system
/// index of zero, ten unspecified IPv4 addresses (`4` and six zeros each),
/// then the two timestamps.
pub proof fn lemma_acceptance_layout(
    payload: Seq<u8>,
    client_address: RakNetAddress,
    server_timestamp: u64,
)
    requires
        ConnectionRequest::spec_accepts(payload),
    ensures
        ({
            let r = connection_request_response(payload, client_address, server_timestamp);
            let ea = client_address.spec_encode();
            let n = ea.len() as int;
            &&& r.len() == 1 + n + 2 + 70 + 16
            &&& r[0] == 0x10
            &&& r.subrange(1, 1 + n) == ea
            &&& r[1 + n] == 0 && r[2 + n] == 0
            &&& forall|i: int|
                0 <= i < 70 ==> #[trigger] r[3 + n + i] == if i % 7 == 0 { 4u8 } else { 0u8 }
        }),
{
    let r = connection_request_response(payload, client_address, server_timestamp);
    let ea = client_address.spec_encode();
    let n = ea.len() as int;
    crate::raknet::protocol::connection_request_accepted::lemma_placeholder_len(10);
    crate::raknet::protocol::connection_request_accepted::lemma_placeholder_bytes(10);
    crate::wire::lemma_u16_big_endian(seq![0u8, 0u8], 0);
    let block = crate::raknet::protocol::connection_request_accepted::placeholder_addresses(10);
    assert(r.subrange(1, 1 + n) =~= ea);
    assert forall|i: int| 0 <= i < 70 implies #[trigger] r[3 + n + i] == if i % 7 == 0 {
        4u8
    } else {
        0u8
    } by {
        assert(r[3 + n + i] == block[i]);
    }
}

/// How a second open-connection request is answered, read off its bytes:
/// reply `0x08` with the magic, the server GUID, the client's address, the
/// MTU the client asked for (the two bytes after the skipped server
/// address, big-endian) capped at 1400, and a clear encryption flag.
pub proof fn lemma_open_connection_request2_answer(
    payload: Seq<u8>,
    server_guid: u64,
    client_address: RakNetAddress,
)
    requires
        OpenConnectionRequest2::spec_accepts(payload),
    ensures
        ({
            let r = open_connection_request2_response(payload, server_guid, client_address);
            let ea = client_address.spec_encode();
            let n = ea.len() as int;
            let k: int = if payload[16] == 4 { 6 } else { 18 };
            let asked = payload[17 + k] as int * 256 + payload[18 + k] as int;
            &&& r.len() == 28 + n
            &&& r[0] == 0x08
            &&& r.subrange(1, 17) == payload.take(16)
            &&& r.subrange(17, 25) == u64_to_be(server_guid)
            &&& r.subrange(25, 25 + n) == ea
            &&& r[25 + n] as int * 256 + r[26 + n] as int == if asked < 1400 { asked } else { 1400 }
            &&& r[27 + n] == 0
        }),
{
    let r = open_connection_request2_response(payload, server_guid, client_address);
    let ea = client_address.spec_encode();
    let n = ea.len() as int;
    let k: int = if payload[16] == 4 { 6 } else { 18 };
    let rest = payload.skip(17 + k);
    let request = OpenConnectionRequest2::spec_decode(payload);
    let m = min_mtu(request.mtu_size, DEFAULT_SERVER_MAX_MTU);
    crate::wire::lemma_u16_big_endian(rest, m);
    assert(rest[0] == payload[17 + k] && rest[1] == payload[18 + k]);
    assert(r.subrange(1, 17) =~= payload.take(16));
    assert(r.subrange(17, 25) =~= u64_to_be(server_guid));
    assert(r.subrange(25, 25 + n) =~= ea);
    assert(r[25 + n] == u16_to_be(m)[0] && r[26 + n] == u16_to_be(m)[1]);
}

/// The pong sent for a ping counts its message in UTF-8 bytes: the two
/// bytes after the thirty-three-byte head, read big-endian, equal the number
/// of bytes that follow, and those are the encoded server message.
pub proof fn lemma_pong_counts_message_bytes(
    payload: Seq<u8>,
    server_guid: u64,
    local_port: Option<u16>,
)
    requires
        UnconnectedPing::spec_accepts(payload),
    ensures
        ({
            let r = ping_response(payload, server_guid, local_port);
            &&& r.len() >= 35
            &&& r.subrange(17, 33) == magic()
            &&& u16_from_be(r.subrange(33, 35)) == r.len() - 35
            &&& r.subrange(35, r.len() as int) == vstd::utf8::encode_utf8(
                server_motd_text(server_guid, local_port),
            )
        }),
{
    lemma_server_motd_fits(server_guid, local_port);
    let text = vstd::utf8::encode_utf8(server_motd_text(server_guid, local_port));
    let r = ping_response(payload, server_guid, local_port);
    let n = text.len() as u16;
    assert(n == text.len());
    crate::wire::lemma_u16_roundtrip(n, Seq::<u8>::empty());
    assert(u16_to_be(n) + Seq::<u8>::empty() =~= u16_to_be(n));
    assert(r.subrange(17, 33) =~= magic());
    assert(r.subrange(33, 35) =~= u16_to_be(n));
    assert(r.subrange(35, r.len() as int) =~= text);
}

/// How a first open-connection request is answered, read off its bytes: a
/// client whose version byte (byte sixteen) is anything but 11 gets the
/// incompatible-protocol notice `0x19`, 11, the magic and the server GUID;
/// a client at version 11 gets reply `0x07` with the magic, the GUID, a clear
/// security flag, and as MTU the payload size (modulo 65536) capped at 1400.
pub proof fn lemma_open_connection_request1_answer(payload: Seq<u8>, server_guid: u64)
    requires
        OpenConnectionRequest1::spec_accepts(payload),
        payload.len() <= usize::MAX,
    ensures
        ({
            let r = open_connection_request1_response(payload, server_guid);
            let mtu = payload.len() % 65536;
            &&& payload[16] != 11 ==> r == seq![0x19u8, 11u8] + payload.take(16) + u64_to_be(
                server_guid,
            )
            &&& payload[16] == 11 ==> {
                &&& r.len() == 28
                &&& r[0] == 0x07
                &&& r.subrange(1, 17) == payload.take(16)
                &&& r.subrange(17, 25) == u64_to_be(server_guid)
                &&& r[25] == 0
                &&& u16_from_be(r.subrange(26, 28)) == if mtu < 1400 { mtu } else { 1400 }
            }
        }),
{
    let r = open_connection_request1_response(payload, server_guid);
    let len = payload.len() as usize;
    assert(len as u16 == len % 65536) by (bit_vector);
    if payload[16] == 11 {
        let m = min_mtu(len as u16, DEFAULT_SERVER_MAX_MTU);
        crate::wire::lemma_u16_roundtrip(m, Seq::<u8>::empty());
        assert(u16_to_be(m) + Seq::<u8>::empty() =~= u16_to_be(m));
        assert(r.subrange(1, 17) =~= payload.take(16));
        assert(r.subrange(17, 25) =~= u64_to_be(server_guid));
        assert(r.subrange(26, 28) =~= u16_to_be(m));
    } else {
        assert(r =~= seq![0x19u8, 11u8] + payload.take(16) + u64_to_be(server_guid));
    }
}

/// Whether the server answers packets that begin with `id`.
pub open spec fn is_handled_packet_id(id: u8) -> bool {
    id == ID_UNCONNECTED_PING || id == ID_OPEN_CONNECTION_REQUEST_1 || id
        == ID_OPEN_CONNECTION_REQUEST_2 || id == ID_CONNECTION_REQUEST
}

/// Exactly four packets are answered: the unconnected ping (`0x01`), the two
/// open-connection requests (`0x05`, `0x06`) and the connection request
/// (`0x09`); every other first byte, such as a frame set's, gets no answer.
pub proof fn lemma_handled_packet_ids(id: u8)
    ensures
        is_handled_packet_id(id) <==> (id == 0x01 || id == 0x05 || id == 0x06 || id == 0x09),
{
}

/// Answers one datagram from `client_address`, whose first byte names the
/// packet and whose rest is its payload.
///
/// Pings, both open-connection requests and connection requests get the
/// answer their handler gives, or its error; any other packet gets no answer.
pub fn handle_packet(
    data: &[u8],
    server_guid: u64,
    local_port: Option<u16>,
    client_address: RakNetAddress,
) -> (r: Result<Option<BytesMut>>)
    requires
        data@.len() >= 1,
    ensures
        ({
            let id = data@[0];
            let p = data@.skip(1);
            &&& id == ID_UNCONNECTED_PING ==> if UnconnectedPing::spec_accepts(p) {
                r matches Ok(Some(out)) && buffer_contents(out) == ping_response(
                    p,
                    server_guid,
                    local_port,
                )
            } else {
                r matches Err(e) && UnconnectedPing::spec_failure(p, e)
            }
            &&& id == ID_OPEN_CONNECTION_REQUEST_1 ==> if OpenConnectionRequest1::spec_accepts(p) {
                r matches Ok(Some(out)) && buffer_contents(out)
                    == open_connection_request1_response(p, server_guid)
            } else {
                r matches Err(e) && OpenConnectionRequest1::spec_failure(p, e)
            }
            &&& id == ID_OPEN_CONNECTION_REQUEST_2 ==> if OpenConnectionRequest2::spec_accepts(p) {
                r matches Ok(Some(out)) && buffer_contents(out)
                    == open_connection_request2_response(p, server_guid, client_address)
            } else {
                r matches Err(e) && OpenConnectionRequest2::spec_failure(p, e)
            }
            &&& id == ID_CONNECTION_REQUEST ==> if ConnectionRequest::spec_accepts(p) {
                r matches Ok(Some(out)) && exists|t: u64|
                    buffer_contents(out) == connection_request_response(p, client_address, t)
            } else {
                r matches Err(e) && ConnectionRequest::spec_failure(p, e)
            }
            &&& !is_handled_packet_id(id) ==> (r matches Ok(None))
            &&& (id != 0x01 && id != 0x05 && id != 0x06 && id != 0x09) ==> (r matches Ok(None))
        }),
{
    let packet_id = data[0];
    let payload = &data[1..data.len()];
    assert(payload@ =~= data@.skip(1));
    if packet_id == ID_UNCONNECTED_PING {
        match handle_unconnected_ping(payload, server_guid, local_port) {
            Ok(out) => Ok(Some(out)),
            Err(e) => Err(e),
        }
    } else if packet_id == ID_OPEN_CONNECTION_REQUEST_1 {
        match handle_open_connection_request1(payload, server_guid) {
            Ok(out) => Ok(Some(out)),
            Err(e) => Err(e),
        }
    } else if packet_id == ID_OPEN_CONNECTION_REQUEST_2 {
        match handle_open_connection_request2(payload, server_guid, client_address) {
            Ok(out) => Ok(Some(out)),
            Err(e) => Err(e),
        }
    } else if packet_id == ID_CONNECTION_REQUEST {
        match handle_connection_request(payload, client_address) {
            Ok(out) => Ok(Some(out)),
            Err(e) => Err(e),
        }
    } else {
        Ok(None)
    }
}

} // verus!
