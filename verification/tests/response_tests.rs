use quic_actor::server::{response_body, Client, ResponseTable, SendOutcome};

#[test]
fn partial_first_send_keeps_the_rest() {
    let mut table = ResponseTable::new();
    table.record_response(4, b"hello world".to_vec(), SendOutcome::Written(5));
    assert!(table.contains(4));
    assert_eq!(table.pending(4), Some(&b" world"[..]));
}

#[test]
fn complete_first_send_keeps_nothing() {
    let mut table = ResponseTable::new();
    table.record_response(4, b"hello".to_vec(), SendOutcome::Written(5));
    assert!(!table.contains(4));
    assert_eq!(table.pending(4), None);
}

#[test]
fn blocked_first_send_keeps_the_whole_body() {
    let mut table = ResponseTable::new();
    table.record_response(8, b"abc".to_vec(), SendOutcome::Done);
    assert_eq!(table.pending(8), Some(&b"abc"[..]));
}

#[test]
fn failed_first_send_keeps_nothing() {
    let mut table = ResponseTable::new();
    table.record_response(8, b"abc".to_vec(), SendOutcome::Failed);
    assert!(!table.contains(8));
}

#[test]
fn empty_body_is_never_kept() {
    let mut table = ResponseTable::new();
    table.record_response(8, Vec::new(), SendOutcome::Done);
    assert!(!table.contains(8));
}

#[test]
fn writes_drain_a_response() {
    let mut table = ResponseTable::new();
    table.record_response(0, b"0123456789".to_vec(), SendOutcome::Written(2));
    assert_eq!(table.record_write(0, SendOutcome::Written(3)), 3);
    assert_eq!(table.pending(0), Some(&b"56789"[..]));
    assert_eq!(table.record_write(0, SendOutcome::Done), 0);
    assert_eq!(table.pending(0), Some(&b"56789"[..]));
    assert_eq!(table.record_write(0, SendOutcome::Written(0)), 0);
    assert_eq!(table.pending(0), Some(&b"56789"[..]));
    assert_eq!(table.record_write(0, SendOutcome::Written(5)), 5);
    assert!(!table.contains(0));
}

#[test]
fn failed_write_drops_the_response() {
    let mut table = ResponseTable::new();
    table.record_response(0, b"0123456789".to_vec(), SendOutcome::Written(2));
    assert_eq!(table.record_write(0, SendOutcome::Failed), 0);
    assert!(!table.contains(0));
}

#[test]
fn write_without_response_reports_nothing() {
    let mut table = ResponseTable::new();
    assert_eq!(table.record_write(3, SendOutcome::Written(7)), 0);
    assert!(!table.contains(3));
}

#[test]
fn responses_on_streams_are_independent() {
    let mut table = ResponseTable::new();
    table.record_response(0, b"aaaa".to_vec(), SendOutcome::Written(1));
    table.record_response(4, b"bbbb".to_vec(), SendOutcome::Written(2));
    assert_eq!(table.record_write(4, SendOutcome::Written(2)), 2);
    assert!(!table.contains(4));
    assert_eq!(table.pending(0), Some(&b"aaa"[..]));
}

#[test]
fn new_response_replaces_old_one() {
    let mut table = ResponseTable::new();
    table.record_response(0, b"aaaa".to_vec(), SendOutcome::Written(1));
    table.record_response(0, b"bbbbbb".to_vec(), SendOutcome::Written(2));
    assert_eq!(table.pending(0), Some(&b"bbbb"[..]));
}

#[test]
fn not_found_fallback() {
    assert_eq!(response_body(None), b"Not Found!\r\n".to_vec());
    assert_eq!(response_body(Some(b"data".to_vec())), b"data".to_vec());
    assert_eq!(response_body(Some(Vec::new())), Vec::<u8>::new());
}

#[test]
fn new_server_client_has_nothing_pending() {
    let client = Client::new(17u32);
    assert_eq!(client.conn, 17);
    assert!(!client.partial_responses.contains(0));
}

#[test]
fn next_write_hands_the_rest_with_fin() {
    let mut table = ResponseTable::new();
    table.record_response(12, b"abcdef".to_vec(), SendOutcome::Written(2));
    assert_eq!(table.next_write(12), Some((&b"cdef"[..], true)));
    assert_eq!(table.record_write(12, SendOutcome::Written(1)), 1);
    assert_eq!(table.next_write(12), Some((&b"def"[..], true)));
    assert_eq!(table.next_write(13), None);
}

#[test]
fn writes_deliver_the_body_in_order() {
    let body = b"the quick brown fox".to_vec();
    let mut table = ResponseTable::new();
    let mut delivered = body[..4].to_vec();
    table.record_response(0, body.clone(), SendOutcome::Written(4));
    for n in [3usize, 0, 5, 7] {
        let (pending, fin) = table.next_write(0).expect("response still pending");
        assert!(fin);
        delivered.extend_from_slice(&pending[..n]);
        assert_eq!(table.record_write(0, SendOutcome::Written(n)), n);
    }
    assert_eq!(delivered, body);
    assert!(!table.contains(0));
}
