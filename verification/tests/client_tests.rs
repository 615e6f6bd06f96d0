use quic_actor::address::{IpAddress, SocketAddress};
use quic_actor::client::{
    http_request, response_finished, Client, ClientMessage, HTTP_REQ_STREAM_ID, MAX_DATAGRAM_SIZE,
};
use quic_actor::server::SendOutcome;

fn server() -> SocketAddress {
    SocketAddress { ip: IpAddress::V4([127, 0, 0, 1]), port: 4480 }
}

#[test]
fn request_layout() {
    let req = http_request(b"127.0.0.1:4480");
    let head = b"GET 127.0.0.1:4480/LONG_README.md\r\n";
    assert_eq!(req.len(), head.len() + MAX_DATAGRAM_SIZE);
    assert_eq!(&req[..head.len()], &head[..]);
    assert!(req[head.len()..].iter().all(|b| *b == 0));
    assert_eq!(MAX_DATAGRAM_SIZE, 65527);
}

#[test]
fn response_ends_on_request_stream_with_fin() {
    assert_eq!(HTTP_REQ_STREAM_ID, 128);
    assert!(response_finished(128, true));
    assert!(!response_finished(128, false));
    assert!(!response_finished(4, true));
}

#[test]
fn request_is_sent_once() {
    let mut client = Client::new("conn", server(), "socket", ClientMessage::Shutdown);
    assert!(!client.req_sent);
    assert!(!client.should_send_request(false));
    assert!(client.should_send_request(true));
    client.record_request(SendOutcome::Failed);
    assert!(client.should_send_request(true));
    client.record_request(SendOutcome::Done);
    assert!(client.should_send_request(true));
    client.record_request(SendOutcome::Written(10));
    assert!(client.req_sent);
    assert!(!client.should_send_request(true));
    client.record_request(SendOutcome::Failed);
    assert!(!client.should_send_request(true));
    assert_eq!(client.peer_address, server());
    assert_eq!(client.connection, "conn");
    assert_eq!(client.socket, "socket");
}
