use quic_actor::client::http_request;
use quic_actor::request::{file_name, first_line, request_line, requested_file};

#[test]
fn first_line_variants() {
    assert_eq!(first_line(b"abc\r\ndef"), b"abc".to_vec());
    assert_eq!(first_line(b"abc\ndef"), b"abc".to_vec());
    assert_eq!(first_line(b"abc"), b"abc".to_vec());
    assert_eq!(first_line(b"abc\r"), b"abc\r".to_vec());
    assert_eq!(first_line(b"\nabc"), b"".to_vec());
    assert_eq!(first_line(b"\r\n"), b"".to_vec());
    assert_eq!(first_line(b"a\rb\n"), b"a\rb".to_vec());
}

#[test]
fn first_line_agrees_with_str_lines() {
    for s in ["abc\r\ndef", "abc\ndef", "abc", "\nabc", "\r\n", "a\rb\n", "x\r\r\n"] {
        let expected = s.lines().next().unwrap().as_bytes().to_vec();
        assert_eq!(first_line(s.as_bytes()), expected, "{:?}", s);
    }
}

#[test]
fn file_name_takes_last_normal_component() {
    assert_eq!(file_name(b"a/b/c"), Some(b"c".to_vec()));
    assert_eq!(file_name(b"a/b/"), Some(b"b".to_vec()));
    assert_eq!(file_name(b"a/.."), Some(b"a".to_vec()));
    assert_eq!(file_name(b"./x/./"), Some(b"x".to_vec()));
    assert_eq!(file_name(b"/etc/passwd"), Some(b"passwd".to_vec()));
    assert_eq!(file_name(b"127.0.0.1:4480/LONG_README.md"), Some(b"LONG_README.md".to_vec()));
    assert_eq!(file_name(b"..."), Some(b"...".to_vec()));
}

#[test]
fn file_name_of_nameless_paths() {
    assert_eq!(file_name(b""), None);
    assert_eq!(file_name(b"/"), None);
    assert_eq!(file_name(b"."), None);
    assert_eq!(file_name(b".."), None);
    assert_eq!(file_name(b"../.././/"), None);
}

#[test]
fn file_name_agrees_with_path_components() {
    for s in ["a/b/c", "a/b/", "a/..", "./x/./", "/etc/passwd", "x//y", "../a/../b", "..."] {
        let mut path = std::path::PathBuf::from("./");
        for c in std::path::Path::new(s).components() {
            if let std::path::Component::Normal(v) = c {
                path.push(v);
            }
        }
        let expected = path.file_name().map(|n| n.to_str().unwrap().as_bytes().to_vec());
        assert_eq!(file_name(s.as_bytes()), expected, "{:?}", s);
    }
}

#[test]
fn request_line_needs_get_and_a_byte() {
    assert_eq!(request_line(b"GET "), None);
    assert_eq!(request_line(b"PUT /x\r\n"), None);
    assert_eq!(request_line(b"get /x\r\n"), None);
    assert_eq!(request_line(b"GET /x\r\nHost: y"), Some(b"/x".to_vec()));
    assert_eq!(request_line(b"GET a"), Some(b"a".to_vec()));
}

#[test]
fn requested_file_of_requests() {
    assert_eq!(requested_file(b"GET /index.html\r\n"), Some(b"index.html".to_vec()));
    assert_eq!(requested_file(b"GET ../../etc/passwd\r\n"), Some(b"passwd".to_vec()));
    assert_eq!(requested_file(b"POST /index.html\r\n"), None);
    assert_eq!(requested_file(b"GE"), None);
}

#[test]
fn server_reads_client_request() {
    let req = http_request(b"127.0.0.1:4480");
    assert_eq!(requested_file(&req), Some(b"LONG_README.md".to_vec()));
    let req = http_request(b"[::1]:4480");
    assert_eq!(requested_file(&req), Some(b"LONG_README.md".to_vec()));
}
