use zipy::sse::{is_json_array_body, sse_payloads};

#[test]
fn frames_are_split_and_unmarked() {
    let body = b"data: {\"a\":1}\r\n\r\n: comment\ndata: {\"b\":2}\n\ndata: {\"c\":3}";
    let p = sse_payloads(body);
    assert_eq!(p, vec![b"{\"a\":1}".to_vec(), b"{\"b\":2}".to_vec(), b"{\"c\":3}".to_vec()]);
}

#[test]
fn body_without_frames_has_no_payloads() {
    assert_eq!(sse_payloads(b""), Vec::<Vec<u8>>::new());
    assert_eq!(sse_payloads(b"[{\"x\":1}]"), Vec::<Vec<u8>>::new());
    assert_eq!(sse_payloads(b"data:"), Vec::<Vec<u8>>::new());
    assert_eq!(sse_payloads(b"data: "), vec![Vec::<u8>::new()]);
}

#[test]
fn array_bodies_are_recognised() {
    assert!(is_json_array_body(b"  \n[{\"x\":1}]"));
    assert!(!is_json_array_body(b"data: [1]"));
    assert!(!is_json_array_body(b"   "));
}
