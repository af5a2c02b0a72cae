use bytes::BytesMut;
use network::error::NetworkError;
use network::raknet::motd::Motd;
use network::raknet::protocol::address::RakNetAddress;
use network::raknet::protocol::connection_request_accepted::{
    get_raknet_timestamp, timestamp_from_elapsed,
};
use network::raknet::protocol::open_connection_reply2::deserialize_raknet_socket_address;
use network::raknet::protocol::{
    ConnectionRequest, ConnectionRequestAccepted, OpenConnectionReply1, OpenConnectionReply2,
    OpenConnectionRequest1, OpenConnectionRequest2, UnconnectedPing, UnconnectedPong, MAGIC_BYTES,
};

fn buf(bytes: &[u8]) -> BytesMut {
    BytesMut::from(bytes)
}

fn sample_motd() -> Motd {
    Motd {
        server_name: "Sapphire".to_string(),
        protocol_version: 800,
        minecraft_version: "1.21.82".to_string(),
        player_count: 0,
        max_players: 50,
        server_guid: 42,
        world_name: "Bedrock World".to_string(),
        game_mode: "Survival".to_string(),
        game_mode_id: 1,
        port_v4: 19132,
        port_v6: 19133,
    }
}

#[test]
fn connection_request_reads_seventeen_bytes() {
    let mut data = Vec::new();
    data.extend_from_slice(&0x0102030405060708u64.to_be_bytes());
    data.extend_from_slice(&1234u64.to_be_bytes());
    data.push(2);
    data.extend_from_slice(&[9, 9]);
    let mut b = buf(&data);
    let r = ConnectionRequest::deserialize(&mut b).unwrap();
    assert_eq!(r.client_guid, 0x0102030405060708);
    assert_eq!(r.request_timestamp, 1234);
    assert!(r.use_security);
    assert_eq!(&b[..], &[9, 9]);
}

#[test]
fn connection_request_security_flag_zero_is_clear() {
    let mut data = vec![0u8; 16];
    data.push(0);
    let r = ConnectionRequest::deserialize(&mut buf(&data)).unwrap();
    assert!(!r.use_security);
}

#[test]
fn connection_request_too_short_leaves_buffer() {
    let mut b = buf(&[1u8; 16]);
    match ConnectionRequest::deserialize(&mut b) {
        Err(NetworkError::BufferTooShort { expected, actual }) => {
            assert_eq!(expected, 17);
            assert_eq!(actual, 16);
        }
        other => panic!("unexpected {:?}", other),
    }
    assert_eq!(b.len(), 16);
}

#[test]
fn unconnected_ping_reads_time_and_guid() {
    let mut data = Vec::new();
    data.extend_from_slice(&77u64.to_be_bytes());
    data.extend_from_slice(&[0xAA; 16]);
    data.extend_from_slice(&0xDEADBEEFu64.to_be_bytes());
    data.push(5);
    let mut b = buf(&data);
    let p = UnconnectedPing::deserialize(&mut b).unwrap();
    assert_eq!(p.time, 77);
    assert_eq!(p.guid, 0xDEADBEEF);
    assert_eq!(&b[..], &[5]);
}

#[test]
fn unconnected_ping_too_short() {
    let mut b = buf(&[0u8; 31]);
    match UnconnectedPing::deserialize(&mut b) {
        Err(NetworkError::Custom(m)) => assert_eq!(m, "Buffer too short for UnconnectedPing"),
        _ => panic!("expected a custom error"),
    }
    assert_eq!(b.len(), 31);
}

#[test]
fn open_connection_request1_reads_version() {
    let mut data = MAGIC_BYTES.to_vec();
    data.push(11);
    data.extend_from_slice(&[0u8; 10]);
    let mut b = buf(&data);
    let r = OpenConnectionRequest1::deserialize(&mut b, 1464).unwrap();
    assert_eq!(r.protocol_version, 11);
    assert_eq!(r.estimated_mtu, 1464);
    assert_eq!(b.len(), 10);
}

#[test]
fn open_connection_request1_mtu_is_cut_to_16_bits() {
    let mut data = MAGIC_BYTES.to_vec();
    data.push(10);
    let r = OpenConnectionRequest1::deserialize(&mut buf(&data), 70000).unwrap();
    assert_eq!(r.estimated_mtu, 4464);
}

#[test]
fn open_connection_request1_errors() {
    let mut short = buf(&MAGIC_BYTES);
    match OpenConnectionRequest1::deserialize(&mut short, 16) {
        Err(NetworkError::BufferTooShort { expected: 17, actual: 16 }) => {}
        other => panic!("unexpected {:?}", other),
    }
    assert_eq!(short.len(), 16);
    let mut bad = buf(&[0u8; 20]);
    assert!(matches!(
        OpenConnectionRequest1::deserialize(&mut bad, 20),
        Err(NetworkError::InvalidMagicBytes)
    ));
    assert_eq!(bad.len(), 4);
}

fn ocr2(version: u8, address_bytes: usize, tail: &[u8]) -> Vec<u8> {
    let mut data = MAGIC_BYTES.to_vec();
    data.push(version);
    data.extend(std::iter::repeat(7u8).take(address_bytes));
    data.extend_from_slice(tail);
    data
}

#[test]
fn open_connection_request2_reads_mtu_and_guid() {
    let mut tail = 1400u16.to_be_bytes().to_vec();
    tail.extend_from_slice(&99u64.to_be_bytes());
    tail.push(1);
    let mut b = buf(&ocr2(4, 6, &tail));
    let r = OpenConnectionRequest2::deserialize(&mut b).unwrap();
    assert_eq!(r.mtu_size, 1400);
    assert_eq!(r.client_guid, 99);
    assert_eq!(&b[..], &[1]);

    let mut b6 = buf(&ocr2(6, 18, &tail));
    let r6 = OpenConnectionRequest2::deserialize(&mut b6).unwrap();
    assert_eq!(r6.mtu_size, 1400);
    assert_eq!(r6.client_guid, 99);
    assert_eq!(b6.len(), 1);
}

#[test]
fn open_connection_request2_errors() {
    match OpenConnectionRequest2::deserialize(&mut buf(&[0u8; 15])) {
        Err(NetworkError::BufferTooShort { expected: 16, actual: 15 }) => {}
        other => panic!("unexpected {:?}", other),
    }
    assert!(matches!(
        OpenConnectionRequest2::deserialize(&mut buf(&[1u8; 40])),
        Err(NetworkError::InvalidMagicBytes)
    ));
    match OpenConnectionRequest2::deserialize(&mut buf(&MAGIC_BYTES)) {
        Err(NetworkError::Custom(m)) => {
            assert_eq!(m, "Buffer too short for server address IP version")
        }
        other => panic!("unexpected {:?}", other),
    }
    let mut b = buf(&ocr2(5, 20, &[]));
    match OpenConnectionRequest2::deserialize(&mut b) {
        Err(NetworkError::Custom(m)) => assert_eq!(m, "Unknown IP version 5 in OCR2 ServerAddress"),
        other => panic!("unexpected {:?}", other),
    }
    assert_eq!(b.len(), 20);
    match OpenConnectionRequest2::deserialize(&mut buf(&ocr2(6, 17, &[]))) {
        Err(NetworkError::Custom(m)) => {
            assert_eq!(m, "Buffer too short for IPv6 server address details")
        }
        other => panic!("unexpected {:?}", other),
    }
    let mut b = buf(&ocr2(4, 6, &[1, 2, 3]));
    match OpenConnectionRequest2::deserialize(&mut b) {
        Err(NetworkError::BufferTooShort { expected: 10, actual: 3 }) => {}
        other => panic!("unexpected {:?}", other),
    }
    assert_eq!(b.len(), 3);
}

#[test]
fn address_roundtrip_v4_and_v6() {
    let v4 = RakNetAddress::V4 { ip: [192, 168, 1, 20], port: 19132 };
    let v6 = RakNetAddress::V6 { ip: [0x20, 0x01, 0x0d, 0xb8, 0, 0, 0, 0, 0, 0, 0, 0, 0, 0, 0, 1], port: 443 };
    for a in [v4, v6] {
        let mut b = BytesMut::new();
        a.serialize(&mut b);
        b.extend_from_slice(&[0xEE]);
        let back = deserialize_raknet_socket_address(&mut b).unwrap();
        assert_eq!(back, a);
        assert_eq!(&b[..], &[0xEE]);
    }
    let mut b = BytesMut::new();
    v4.serialize(&mut b);
    assert_eq!(&b[..], &[4, 192, 168, 1, 20, 0x4A, 0xBC]);
}

#[test]
fn address_errors() {
    match deserialize_raknet_socket_address(&mut BytesMut::new()) {
        Err(NetworkError::BufferTooShort { expected: 1, actual: 0 }) => {}
        other => panic!("unexpected {:?}", other),
    }
    let mut b = buf(&[4, 1, 2, 3, 4, 5]);
    match deserialize_raknet_socket_address(&mut b) {
        Err(NetworkError::BufferTooShort { expected: 6, actual: 5 }) => {}
        other => panic!("unexpected {:?}", other),
    }
    assert_eq!(b.len(), 5);
    match deserialize_raknet_socket_address(&mut buf(&[6, 1, 2])) {
        Err(NetworkError::BufferTooShort { expected: 18, actual: 2 }) => {}
        other => panic!("unexpected {:?}", other),
    }
    match deserialize_raknet_socket_address(&mut buf(&[7, 0, 0])) {
        Err(NetworkError::Custom(m)) => assert_eq!(m, "Invalid IP version 7 in RakNet SocketAddress"),
        other => panic!("unexpected {:?}", other),
    }
}

#[test]
fn open_connection_reply1_bytes() {
    let reply = OpenConnectionReply1 { server_guid: 0x11, use_security: true, mtu_size: 1400 };
    let mut b = buf(&[0x07]);
    assert!(reply.serialize(&mut b).is_ok());
    let mut expected = vec![0x07];
    expected.extend_from_slice(&MAGIC_BYTES);
    expected.extend_from_slice(&0x11u64.to_be_bytes());
    expected.push(1);
    expected.extend_from_slice(&1400u16.to_be_bytes());
    assert_eq!(&b[..], &expected[..]);
    assert_eq!(b.len(), 1 + 27);
}

#[test]
fn open_connection_reply2_bytes() {
    let reply = OpenConnectionReply2 {
        server_guid: 5,
        client_address: RakNetAddress::V4 { ip: [127, 0, 0, 1], port: 1000 },
        mtu_size: 576,
        use_encryption: false,
    };
    let mut b = BytesMut::new();
    assert!(reply.serialize(&mut b).is_ok());
    let mut expected = MAGIC_BYTES.to_vec();
    expected.extend_from_slice(&5u64.to_be_bytes());
    expected.extend_from_slice(&[4, 127, 0, 0, 1, 0x03, 0xE8]);
    expected.extend_from_slice(&576u16.to_be_bytes());
    expected.push(0);
    assert_eq!(&b[..], &expected[..]);
}

#[test]
fn connection_request_accepted_bytes() {
    let reply = ConnectionRequestAccepted {
        client_address: RakNetAddress::V4 { ip: [10, 0, 0, 2], port: 5000 },
        system_index: 0,
        request_timestamp: 111,
        server_timestamp: 222,
    };
    let mut b = BytesMut::new();
    assert!(reply.serialize(&mut b).is_ok());
    let mut expected = vec![4, 10, 0, 0, 2, 0x13, 0x88, 0, 0];
    for _ in 0..10 {
        expected.extend_from_slice(&[4, 0, 0, 0, 0, 0, 0]);
    }
    expected.extend_from_slice(&111u64.to_be_bytes());
    expected.extend_from_slice(&222u64.to_be_bytes());
    assert_eq!(&b[..], &expected[..]);
    assert_eq!(b.len(), 7 + 2 + 70 + 16);
}

#[test]
fn motd_text() {
    assert_eq!(
        sample_motd().to_string(),
        "MCPE;Sapphire;800;1.21.82;0;50;42;Bedrock World;Survival;1;19132;19133;"
    );
    let mut m = sample_motd();
    m.server_guid = u64::MAX;
    m.player_count = 7;
    assert_eq!(
        m.to_string(),
        "MCPE;Sapphire;800;1.21.82;7;50;18446744073709551615;Bedrock World;Survival;1;19132;19133;"
    );
}

#[test]
fn unconnected_pong_bytes() {
    let pong = UnconnectedPong { time: 3, guid: 4, motd: sample_motd() };
    let mut b = BytesMut::new();
    assert!(pong.serialize(&mut b).is_ok());
    let text = sample_motd().to_string();
    let mut expected = Vec::new();
    expected.extend_from_slice(&3u64.to_be_bytes());
    expected.extend_from_slice(&4u64.to_be_bytes());
    expected.extend_from_slice(&MAGIC_BYTES);
    expected.extend_from_slice(&(text.len() as u16).to_be_bytes());
    expected.extend_from_slice(text.as_bytes());
    assert_eq!(&b[..], &expected[..]);
}

#[test]
fn unconnected_pong_motd_too_long() {
    let mut motd = sample_motd();
    motd.world_name = "w".repeat(70000);
    let len = motd.to_string().len();
    let pong = UnconnectedPong { time: 3, guid: 4, motd };
    let mut b = BytesMut::new();
    match pong.serialize(&mut b) {
        Err(NetworkError::MotdTooLong(l, max)) => {
            assert_eq!(l, len);
            assert_eq!(max, 65535);
        }
        other => panic!("unexpected {:?}", other),
    }
    assert_eq!(b.len(), 32);
}

#[test]
fn timestamps() {
    assert_eq!(timestamp_from_elapsed(None), 0);
    assert_eq!(timestamp_from_elapsed(Some(1_700_000_000_000)), 1_700_000_000_000);
    assert_eq!(timestamp_from_elapsed(Some((1u128 << 64) + 5)), 5);
    assert!(get_raknet_timestamp() > 1_600_000_000_000);
}

#[test]
fn motd_text_reads_back_into_fields() {
    let mut m = sample_motd();
    m.server_guid = 9_876_543_210;
    let text = m.to_string();
    let parts: Vec<&str> = text.split(';').collect();
    assert_eq!(parts.len(), 13);
    assert_eq!(parts[0], "MCPE");
    assert_eq!(parts[1], m.server_name);
    assert_eq!(parts[2].parse::<u32>().unwrap(), m.protocol_version);
    assert_eq!(parts[3], m.minecraft_version);
    assert_eq!(parts[4].parse::<u32>().unwrap(), m.player_count);
    assert_eq!(parts[5].parse::<u32>().unwrap(), m.max_players);
    assert_eq!(parts[6].parse::<u64>().unwrap(), m.server_guid);
    assert_eq!(parts[7], m.world_name);
    assert_eq!(parts[8], m.game_mode);
    assert_eq!(parts[9].parse::<u32>().unwrap(), m.game_mode_id);
    assert_eq!(parts[10].parse::<u16>().unwrap(), m.port_v4);
    assert_eq!(parts[11].parse::<u16>().unwrap(), m.port_v6);
    assert_eq!(parts[12], "");
}
