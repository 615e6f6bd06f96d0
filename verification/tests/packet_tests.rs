use quic_actor::address::{IpAddress, SocketAddress};
use quic_actor::conn_id::derive_conn_id;
use quic_actor::packet::{
    classify_packet, version_is_supported, PacketAction, PacketHeader, PacketType,
    PROTOCOL_VERSION_DRAFT27, PROTOCOL_VERSION_DRAFT28, PROTOCOL_VERSION_DRAFT29,
    PROTOCOL_VERSION_V1,
};
use quic_actor::token::mint_token;

fn peer() -> SocketAddress {
    SocketAddress { ip: IpAddress::V4([127, 0, 0, 1]), port: 50000 }
}

fn initial(dcid: &[u8], token: Option<Vec<u8>>) -> PacketHeader {
    PacketHeader {
        ty: PacketType::Initial,
        version: PROTOCOL_VERSION_V1,
        dcid: dcid.to_vec(),
        scid: vec![0x11; 8],
        token,
    }
}

#[test]
fn supported_versions() {
    assert!(version_is_supported(PROTOCOL_VERSION_V1));
    assert!(version_is_supported(PROTOCOL_VERSION_DRAFT27));
    assert!(version_is_supported(PROTOCOL_VERSION_DRAFT28));
    assert!(version_is_supported(PROTOCOL_VERSION_DRAFT29));
    assert_eq!(PROTOCOL_VERSION_V1, 1);
    assert_eq!(PROTOCOL_VERSION_DRAFT29, 0xff00_001d);
    assert!(!version_is_supported(0xbaba_baba));
    assert!(!version_is_supported(0));
    assert!(!version_is_supported(0xff00_001e));
}

#[test]
fn known_by_destination_id() {
    let hdr = initial(&[1, 2, 3], None);
    let cid = [7u8; 20];
    match classify_packet(&hdr, &cid, true, true, &peer()) {
        PacketAction::Known(id) => assert_eq!(id, vec![1, 2, 3]),
        _ => panic!("expected a known client"),
    }
}

#[test]
fn known_by_derived_id() {
    let hdr = initial(&[1, 2, 3], None);
    let cid = [7u8; 20];
    match classify_packet(&hdr, &cid, false, true, &peer()) {
        PacketAction::Known(id) => assert_eq!(id, cid.to_vec()),
        _ => panic!("expected a known client"),
    }
}

#[test]
fn unsupported_version_negotiates() {
    let mut hdr = initial(&[1, 2, 3], None);
    hdr.version = 0x1a2a_3a4a;
    assert!(matches!(
        classify_packet(&hdr, &[0u8; 20], false, false, &peer()),
        PacketAction::NegotiateVersion
    ));
}

#[test]
fn empty_token_gets_retry() {
    let hdr = initial(&[5u8; 8], Some(Vec::new()));
    let cid = [3u8; 20];
    match classify_packet(&hdr, &cid, false, false, &peer()) {
        PacketAction::Retry { scid, token } => {
            assert_eq!(scid, cid.to_vec());
            assert_eq!(token, mint_token(&hdr, &peer()));
            let mut expected = b"quiche".to_vec();
            expected.extend_from_slice(&[127, 0, 0, 1]);
            expected.extend_from_slice(&[5u8; 8]);
            assert_eq!(token, expected);
        }
        _ => panic!("expected a retry"),
    }
}

#[test]
fn foreign_token_is_invalid() {
    let hdr = initial(&[5u8; 20], Some(b"not a token".to_vec()));
    assert!(matches!(
        classify_packet(&hdr, &[3u8; 20], false, false, &peer()),
        PacketAction::InvalidToken
    ));
}

#[test]
fn short_destination_id_is_invalid() {
    let mut token = b"quiche".to_vec();
    token.extend_from_slice(&[127, 0, 0, 1, 9, 9]);
    let hdr = initial(&[5u8; 8], Some(token));
    assert!(matches!(
        classify_packet(&hdr, &[3u8; 20], false, false, &peer()),
        PacketAction::InvalidDcid
    ));
}

#[test]
fn valid_token_is_accepted() {
    let mut token = b"quiche".to_vec();
    token.extend_from_slice(&[127, 0, 0, 1, 9, 8, 7]);
    let hdr = initial(&[5u8; 20], Some(token));
    match classify_packet(&hdr, &[3u8; 20], false, false, &peer()) {
        PacketAction::Accept { scid, odcid } => {
            assert_eq!(scid, vec![5u8; 20]);
            assert_eq!(odcid, vec![9, 8, 7]);
        }
        _ => panic!("expected an accepted connection"),
    }
}

#[test]
fn retry_then_accept() {
    let seed = [0x42u8; 32];
    let first = initial(&[0xd1; 8], Some(Vec::new()));
    let first_cid = derive_conn_id(&seed, &first.dcid);
    let (scid, token) = match classify_packet(&first, &first_cid, false, false, &peer()) {
        PacketAction::Retry { scid, token } => (scid, token),
        _ => panic!("expected a retry"),
    };
    let second = initial(&scid, Some(token));
    let second_cid = derive_conn_id(&seed, &second.dcid);
    match classify_packet(&second, &second_cid, false, false, &peer()) {
        PacketAction::Accept { scid: accepted, odcid } => {
            assert_eq!(accepted, scid);
            assert_eq!(odcid, vec![0xd1; 8]);
        }
        _ => panic!("expected an accepted connection"),
    }
}

#[test]
fn retry_token_from_other_address_is_refused() {
    let first = initial(&[0xd1; 8], Some(Vec::new()));
    let cid = [4u8; 20];
    let token = match classify_packet(&first, &cid, false, false, &peer()) {
        PacketAction::Retry { token, .. } => token,
        _ => panic!("expected a retry"),
    };
    let other = SocketAddress { ip: IpAddress::V4([127, 0, 0, 2]), port: 50000 };
    let second = initial(&cid, Some(token));
    assert!(matches!(
        classify_packet(&second, &[6u8; 20], false, false, &other),
        PacketAction::InvalidToken
    ));
}
