use network::error::NetworkError;
use network::raknet::listener::{
    accept_connection_request, handle_connection_request, handle_open_connection_request1,
    handle_open_connection_request2, handle_packet, handle_unconnected_ping, server_motd,
};
use network::raknet::protocol::address::RakNetAddress;
use network::raknet::protocol::{
    DEFAULT_SERVER_MAX_MTU, ID_CONNECTION_REQUEST, ID_CONNECTION_REQUEST_ACCEPTED,
    ID_INCOMPATIBLE_PROTOCOL_VERSION, ID_OPEN_CONNECTION_REPLY_1, ID_OPEN_CONNECTION_REPLY_2,
    ID_OPEN_CONNECTION_REQUEST_1, ID_UNCONNECTED_PING, ID_UNCONNECTED_PONG, MAGIC_BYTES,
    RAKNET_PROTOCOL_VERSION,
};

const GUID: u64 = 0x0123456789ABCDEF;

fn client() -> RakNetAddress {
    RakNetAddress::V4 { ip: [192, 168, 0, 9], port: 50000 }
}

fn ping_payload(time: u64) -> Vec<u8> {
    let mut p = time.to_be_bytes().to_vec();
    p.extend_from_slice(&MAGIC_BYTES);
    p.extend_from_slice(&8u64.to_be_bytes());
    p
}

#[test]
fn pong_echoes_ping_time() {
    let out = handle_unconnected_ping(&ping_payload(123456), GUID, Some(19132)).unwrap();
    let text = "MCPE;Sapphire;800;1.21.82;0;50;81985529216486895;Bedrock World;Survival;1;19132;19132;";
    let mut expected = vec![ID_UNCONNECTED_PONG];
    expected.extend_from_slice(&123456u64.to_be_bytes());
    expected.extend_from_slice(&GUID.to_be_bytes());
    expected.extend_from_slice(&MAGIC_BYTES);
    expected.extend_from_slice(&(text.len() as u16).to_be_bytes());
    expected.extend_from_slice(text.as_bytes());
    assert_eq!(&out[..], &expected[..]);
}

#[test]
fn server_motd_ports_default_without_local_address() {
    let m = server_motd(GUID, None);
    assert_eq!(m.port_v4, 19132);
    assert_eq!(m.port_v6, 19133);
    assert_eq!(m.server_name, "Sapphire");
    assert_eq!(m.max_players, 50);
}

#[test]
fn short_ping_is_refused() {
    assert!(matches!(
        handle_unconnected_ping(&[0u8; 10], GUID, None),
        Err(NetworkError::Custom(_))
    ));
}

fn ocr1_payload(version: u8, padding: usize) -> Vec<u8> {
    let mut p = MAGIC_BYTES.to_vec();
    p.push(version);
    p.extend(std::iter::repeat(0u8).take(padding));
    p
}

#[test]
fn incompatible_protocol_is_answered() {
    let out = handle_open_connection_request1(&ocr1_payload(10, 100), GUID).unwrap();
    let mut expected = vec![ID_INCOMPATIBLE_PROTOCOL_VERSION, RAKNET_PROTOCOL_VERSION];
    expected.extend_from_slice(&MAGIC_BYTES);
    expected.extend_from_slice(&GUID.to_be_bytes());
    assert_eq!(&out[..], &expected[..]);
}

#[test]
fn reply1_caps_mtu() {
    let big = ocr1_payload(RAKNET_PROTOCOL_VERSION, 1500);
    let out = handle_open_connection_request1(&big, GUID).unwrap();
    assert_eq!(out[0], ID_OPEN_CONNECTION_REPLY_1);
    assert_eq!(&out[1..17], &MAGIC_BYTES);
    assert_eq!(&out[17..25], &GUID.to_be_bytes());
    assert_eq!(out[25], 0);
    assert_eq!(&out[26..28], &DEFAULT_SERVER_MAX_MTU.to_be_bytes());

    let small = ocr1_payload(RAKNET_PROTOCOL_VERSION, 500);
    let out = handle_open_connection_request1(&small, GUID).unwrap();
    assert_eq!(&out[26..28], &(517u16).to_be_bytes());
}

#[test]
fn reply1_refuses_bad_magic() {
    assert!(matches!(
        handle_open_connection_request1(&[3u8; 30], GUID),
        Err(NetworkError::InvalidMagicBytes)
    ));
}

#[test]
fn reply2_carries_client_address() {
    let mut p = MAGIC_BYTES.to_vec();
    p.extend_from_slice(&[4, 1, 2, 3, 4, 0x4A, 0xBC]);
    p.extend_from_slice(&1492u16.to_be_bytes());
    p.extend_from_slice(&77u64.to_be_bytes());
    let out = handle_open_connection_request2(&p, GUID, client()).unwrap();
    let mut expected = vec![ID_OPEN_CONNECTION_REPLY_2];
    expected.extend_from_slice(&MAGIC_BYTES);
    expected.extend_from_slice(&GUID.to_be_bytes());
    expected.extend_from_slice(&[4, 192, 168, 0, 9, 0xC3, 0x50]);
    expected.extend_from_slice(&1400u16.to_be_bytes());
    expected.push(0);
    assert_eq!(&out[..], &expected[..]);
}

fn cr_payload(timestamp: u64) -> Vec<u8> {
    let mut p = 55u64.to_be_bytes().to_vec();
    p.extend_from_slice(&timestamp.to_be_bytes());
    p.push(0);
    p
}

#[test]
fn acceptance_echoes_request_time() {
    let out = accept_connection_request(&cr_payload(999), client(), 1234).unwrap();
    assert_eq!(out[0], ID_CONNECTION_REQUEST_ACCEPTED);
    assert_eq!(out.len(), 1 + 7 + 2 + 70 + 16);
    assert_eq!(&out[1..8], &[4, 192, 168, 0, 9, 0xC3, 0x50]);
    assert_eq!(&out[out.len() - 16..out.len() - 8], &999u64.to_be_bytes());
    assert_eq!(&out[out.len() - 8..], &1234u64.to_be_bytes());
}

#[test]
fn acceptance_uses_the_clock() {
    let out = handle_connection_request(&cr_payload(5), client()).unwrap();
    let mut ts = [0u8; 8];
    ts.copy_from_slice(&out[out.len() - 8..]);
    assert!(u64::from_be_bytes(ts) > 1_600_000_000_000);
    assert!(matches!(
        handle_connection_request(&[0u8; 3], client()),
        Err(NetworkError::BufferTooShort { expected: 17, actual: 3 })
    ));
}

#[test]
fn packets_are_dispatched_by_id() {
    let mut ping = vec![ID_UNCONNECTED_PING];
    ping.extend_from_slice(&ping_payload(1));
    let answer = handle_packet(&ping, GUID, None, client()).unwrap().unwrap();
    assert_eq!(answer[0], ID_UNCONNECTED_PONG);

    let mut ocr1 = vec![ID_OPEN_CONNECTION_REQUEST_1];
    ocr1.extend_from_slice(&ocr1_payload(RAKNET_PROTOCOL_VERSION, 0));
    let answer = handle_packet(&ocr1, GUID, None, client()).unwrap().unwrap();
    assert_eq!(answer[0], ID_OPEN_CONNECTION_REPLY_1);

    let mut cr = vec![ID_CONNECTION_REQUEST];
    cr.extend_from_slice(&cr_payload(1));
    let answer = handle_packet(&cr, GUID, None, client()).unwrap().unwrap();
    assert_eq!(answer[0], ID_CONNECTION_REQUEST_ACCEPTED);

    assert!(handle_packet(&[0x42, 1, 2, 3], GUID, None, client()).unwrap().is_none());
    assert!(handle_packet(&[ID_UNCONNECTED_PING], GUID, None, client()).is_err());
}
