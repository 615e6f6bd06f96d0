use quic_actor::address::{IpAddress, SocketAddress};
use quic_actor::packet::{PacketAction, PacketHeader, PacketType, PROTOCOL_VERSION_V1};
use quic_actor::server::{ResponseTable, SendOutcome};
use quic_actor::table::ClientTable;

fn peer() -> SocketAddress {
    SocketAddress { ip: IpAddress::V4([192, 168, 1, 9]), port: 4000 }
}

fn initial(dcid: &[u8], token: Option<Vec<u8>>) -> PacketHeader {
    PacketHeader {
        ty: PacketType::Initial,
        version: PROTOCOL_VERSION_V1,
        dcid: dcid.to_vec(),
        scid: vec![1; 8],
        token,
    }
}

#[test]
fn table_starts_empty() {
    let table: ClientTable<u32> = ClientTable::new();
    assert_eq!(table.len(), 0);
    assert!(!table.contains(&[1, 2, 3]));
    assert_eq!(table.position(&[]), None);
}

#[test]
fn inserted_clients_are_found() {
    let mut table = ClientTable::new();
    table.insert(vec![1, 2, 3], 10u32);
    table.insert(vec![4, 5], 20u32);
    assert_eq!(table.len(), 2);
    assert!(table.contains(&[1, 2, 3]));
    assert!(!table.contains(&[1, 2]));
    assert_eq!(table.position(&[4, 5]), Some(1));
    assert_eq!(table.at(1).conn, 20);
    assert!(!table.at(0).partial_responses.contains(0));
}

#[test]
fn client_changed_in_place() {
    let mut table = ClientTable::new();
    table.insert(vec![7], 1u32);
    table.insert(vec![8], 2u32);
    let client = table.at_mut(1);
    client.conn = 5;
    client.partial_responses.record_response(4, b"xyz".to_vec(), SendOutcome::Done);
    assert_eq!(table.at(1).conn, 5);
    assert_eq!(table.at(1).partial_responses.pending(4), Some(&b"xyz"[..]));
    assert_eq!(table.at(0).conn, 1);
    let (bytes, fin) = ResponseTable::first_write(b"abc");
    assert_eq!(bytes, b"abc");
    assert!(fin);
}

#[test]
fn removed_client_is_gone() {
    let mut table = ClientTable::new();
    table.insert(vec![1], 'a');
    table.insert(vec![2], 'b');
    table.insert(vec![3], 'c');
    table.remove_at(1);
    assert_eq!(table.len(), 2);
    assert!(!table.contains(&[2]));
    assert_eq!(table.position(&[3]), Some(1));
    assert_eq!(table.at(1).conn, 'c');
}

#[test]
fn routing_looks_up_both_ids() {
    let mut table = ClientTable::new();
    table.insert(vec![9; 20], 0u8);
    let hdr = initial(&[9; 20], None);
    match table.route_packet(&hdr, &[3; 20], &peer()) {
        PacketAction::Known(id) => assert_eq!(id, vec![9; 20]),
        _ => panic!("expected a known client"),
    }
    let hdr = initial(&[4; 8], None);
    match table.route_packet(&hdr, &[9; 20], &peer()) {
        PacketAction::Known(id) => assert_eq!(id, vec![9; 20]),
        _ => panic!("expected a known client"),
    }
}

#[test]
fn accepted_client_joins_table() {
    let mut table = ClientTable::new();
    let mut token = b"quiche".to_vec();
    token.extend_from_slice(&[192, 168, 1, 9, 0xee, 0xff]);
    let hdr = initial(&[6; 20], Some(token));
    match table.route_packet(&hdr, &[2; 20], &peer()) {
        PacketAction::Accept { scid, odcid } => {
            assert_eq!(odcid, vec![0xee, 0xff]);
            table.insert(scid, 1u8);
        }
        _ => panic!("expected an accepted connection"),
    }
    assert!(table.contains(&[6; 20]));
    match table.route_packet(&hdr, &[2; 20], &peer()) {
        PacketAction::Known(id) => assert_eq!(id, vec![6; 20]),
        _ => panic!("expected a known client"),
    }
}

#[test]
fn retry_does_not_join_table() {
    let table: ClientTable<u8> = ClientTable::new();
    let hdr = initial(&[6; 8], Some(Vec::new()));
    assert!(matches!(table.route_packet(&hdr, &[2; 20], &peer()), PacketAction::Retry { .. }));
    assert_eq!(table.len(), 0);
}
