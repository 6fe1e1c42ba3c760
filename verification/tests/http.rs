use oscquery::http::json_models::{HostInfo, HostInfoExtensions};
use oscquery::http::{
    respond, route, start, OQHTTPHandler, ReadEvent, Route, Signal, HTTP_INDEX, READ_BUFFER_SIZE,
};
use oscquery::net::SocketAddress;
use oscquery::node::OSCQueryNode;
use oscquery::OQError;

fn handler() -> OQHTTPHandler<'static> {
    OQHTTPHandler::new(
        SocketAddress::new(172, 19, 19, 244, 8080),
        HostInfo::new("VibeCheck".to_string(), "127.0.0.1".to_string(), 9069),
    )
}

fn chunk(request: &[u8]) -> ReadEvent {
    let mut bytes = vec![0u8; READ_BUFFER_SIZE];
    bytes[..request.len()].copy_from_slice(request);
    ReadEvent::Chunk { bytes, read: request.len() }
}

fn body_of(response: &str) -> &str {
    let (head, body) = response.split_once("\r\n\r\n").unwrap();
    let mut lines = head.split("\r\n");
    assert_eq!(lines.next(), Some("HTTP/1.1 200"));
    assert_eq!(lines.next(), Some("Content-Type: application/json"));
    assert_eq!(lines.next(), Some(format!("Content-Length: {}", body.len()).as_str()));
    assert_eq!(lines.next(), None);
    body
}

#[test]
fn the_index_request_is_answered_with_the_index_document() {
    let response = handler().handle_connection(&vec![chunk(b"GET / HTTP/1.1\r\n\r\n")]).unwrap();
    let body = body_of(&response);
    assert_eq!(body, HTTP_INDEX);
    let document: serde_json::Value = serde_json::from_str(body).unwrap();
    assert_eq!(document.get("FULL_PATH").and_then(|v| v.as_str()), Some("/"));
    let tree = OSCQueryNode::parse(body).unwrap();
    assert_eq!(tree.full_path, "/");
    assert_eq!(tree.leaf_params(), vec!["/avatar/change"]);
}

#[test]
fn the_host_info_request_is_answered_with_the_host_info() {
    let response =
        handler().handle_connection(&vec![chunk(b"GET /?HOST_INFO HTTP/1.1\r\n\r\n")]).unwrap();
    let body = body_of(&response);
    let document: serde_json::Value = serde_json::from_str(body).unwrap();
    assert_eq!(document.get("NAME").and_then(|v| v.as_str()), Some("VibeCheck"));
    assert_eq!(document.get("OSC_PORT").and_then(|v| v.as_u64()), Some(9069));
    assert_eq!(document.get("OSC_IP").and_then(|v| v.as_str()), Some("127.0.0.1"));
    assert_eq!(document.get("OSC_TRANSPORT").and_then(|v| v.as_str()), Some("UDP"));
    let extensions = document.get("EXTENSIONS").unwrap();
    assert_eq!(extensions.get("ACCESS").and_then(|v| v.as_bool()), Some(true));
    assert_eq!(extensions.get("CLIPMODE").and_then(|v| v.as_bool()), Some(false));
    assert_eq!(extensions.get("RANGE").and_then(|v| v.as_bool()), Some(true));
    assert_eq!(extensions.get("TYPE").and_then(|v| v.as_bool()), Some(true));
    assert_eq!(extensions.get("VALUE").and_then(|v| v.as_bool()), Some(true));
}

#[test]
fn an_unrecognized_request_is_invalid() {
    let h = handler();
    for request in [
        &b"POST / HTTP/1.1\r\n\r\n"[..],
        b"GET /avatar HTTP/1.1\r\n\r\n",
        b"GET /?HOST_INFO",
        b"GET / HTTP",
        b"get / HTTP/1.1\r\n\r\n",
        b" GET / HTTP/1.1\r\n\r\n",
        b"",
    ] {
        assert_eq!(h.http_route(request.to_vec()), Err(OQError::InvalidHttpBuffer));
    }
    assert_eq!(h.handle_connection(&vec![]), Err(OQError::InvalidHttpBuffer));
    assert_eq!(h.handle_connection(&vec![ReadEvent::Failed]), Err(OQError::InvalidHttpBuffer));
}

#[test]
fn routes_are_told_by_their_opening_bytes() {
    assert_eq!(route(b"GET / HTTP/"), Some(Route::Index));
    assert_eq!(route(b"GET / HTTP/2 and more"), Some(Route::Index));
    assert_eq!(route(b"GET /?HOST_INFO HTTP/"), Some(Route::HostInfo));
    assert_eq!(route(b"GET /?HOST_INFO HTTP/1.0\r\n"), Some(Route::HostInfo));
    assert_eq!(route(b"GET /?HOST_INF HTTP/"), None);
    assert_eq!(route(b"GET /"), None);
}

#[test]
fn the_host_info_document_is_written_in_field_order() {
    let info = HostInfo::new("VibeCheck".to_string(), "127.0.0.1".to_string(), 9069);
    assert_eq!(
        info.to_json().unwrap(),
        "{\"NAME\":\"VibeCheck\",\"EXTENSIONS\":{\"ACCESS\":true,\"CLIPMODE\":false,\"RANGE\":true,\"TYPE\":true,\"VALUE\":true},\"OSC_IP\":\"127.0.0.1\",\"OSC_PORT\":9069,\"OSC_TRANSPORT\":\"UDP\"}"
    );
}

#[test]
fn the_host_info_document_escapes_its_texts() {
    let info = HostInfo {
        name: "Vibe\"Check\\\n".to_string(),
        extensions: HostInfoExtensions {
            access: false,
            clipmode: true,
            range: false,
            _type: false,
            value: false,
        },
        osc_ip: "::1".to_string(),
        osc_port: 0,
        osc_transport: "TCP",
    };
    let json = info.to_json().unwrap();
    assert_eq!(
        json,
        "{\"NAME\":\"Vibe\\\"Check\\\\\\n\",\"EXTENSIONS\":{\"ACCESS\":false,\"CLIPMODE\":true,\"RANGE\":false,\"TYPE\":false,\"VALUE\":false},\"OSC_IP\":\"::1\",\"OSC_PORT\":0,\"OSC_TRANSPORT\":\"TCP\"}"
    );
    let document: serde_json::Value = serde_json::from_str(&json).unwrap();
    assert_eq!(document.get("NAME").and_then(|v| v.as_str()), Some("Vibe\"Check\\\n"));
}

#[test]
fn document_around_takes_its_texts_as_they_are() {
    let info = HostInfo::new("n".to_string(), "i".to_string(), 65535);
    assert_eq!(
        info.document_around("A", "B", "C"),
        "{\"NAME\":A,\"EXTENSIONS\":{\"ACCESS\":true,\"CLIPMODE\":false,\"RANGE\":true,\"TYPE\":true,\"VALUE\":true},\"OSC_IP\":B,\"OSC_PORT\":65535,\"OSC_TRANSPORT\":C}"
    );
}

#[test]
fn the_extensions_are_written_as_an_object_of_flags() {
    let extensions =
        HostInfoExtensions { access: true, clipmode: true, range: false, _type: true, value: false };
    assert_eq!(
        extensions.to_json(),
        "{\"ACCESS\":true,\"CLIPMODE\":true,\"RANGE\":false,\"TYPE\":true,\"VALUE\":false}"
    );
}

#[test]
fn a_response_states_the_length_of_its_body_in_bytes() {
    assert_eq!(
        respond("{}"),
        "HTTP/1.1 200\r\nContent-Type: application/json\r\nContent-Length: 2\r\n\r\n{}"
    );
    assert_eq!(
        respond(""),
        "HTTP/1.1 200\r\nContent-Type: application/json\r\nContent-Length: 0\r\n\r\n"
    );
    assert_eq!(
        respond("\"é€\""),
        "HTTP/1.1 200\r\nContent-Type: application/json\r\nContent-Length: 7\r\n\r\n\"é€\""
    );
    let response = respond(HTTP_INDEX);
    assert!(response.contains(&format!("Content-Length: {}\r\n\r\n", HTTP_INDEX.len())));
}

#[test]
fn a_read_adds_the_whole_buffer_and_a_short_one_ends_the_request() {
    let h = handler();
    let mut buffer = vec![1u8];
    assert!(h.on_read(&mut buffer, &chunk(b"abc")));
    assert_eq!(buffer.len(), 1 + READ_BUFFER_SIZE);
    assert_eq!(&buffer[..5], &[1, b'a', b'b', b'c', 0]);

    let mut buffer = vec![1u8];
    let full = ReadEvent::Chunk { bytes: vec![7u8; READ_BUFFER_SIZE], read: READ_BUFFER_SIZE };
    assert!(!h.on_read(&mut buffer, &full));
    assert_eq!(buffer.len(), 1 + READ_BUFFER_SIZE);

    let mut buffer = vec![1u8];
    assert!(h.on_read(&mut buffer, &ReadEvent::Chunk { bytes: vec![9u8; 4], read: 0 }));
    assert_eq!(buffer, vec![1u8]);
    assert!(!h.on_read(&mut buffer, &ReadEvent::WouldBlock));
    assert_eq!(buffer, vec![1u8]);
    assert!(h.on_read(&mut buffer, &ReadEvent::Failed));
    assert_eq!(buffer, vec![1u8]);
}

#[test]
fn a_request_is_gathered_until_a_read_ends_it() {
    let h = handler();
    let mut first = vec![b' '; READ_BUFFER_SIZE];
    first[..11].copy_from_slice(b"GET / HTTP/");
    let events = vec![
        ReadEvent::WouldBlock,
        ReadEvent::Chunk { bytes: first, read: READ_BUFFER_SIZE },
        ReadEvent::WouldBlock,
        chunk(b"1.1\r\n\r\n"),
        chunk(b"never read"),
    ];
    assert!(h.handle_connection(&events).is_ok());

    // What comes after the read that ended the request is not part of it.
    let events = vec![chunk(b"GET "), chunk(b"/ HTTP/1.1\r\n\r\n")];
    assert_eq!(h.handle_connection(&events), Err(OQError::InvalidHttpBuffer));
    let events = vec![ReadEvent::Failed, chunk(b"GET / HTTP/1.1\r\n\r\n")];
    assert_eq!(h.handle_connection(&events), Err(OQError::InvalidHttpBuffer));
    let events = vec![
        ReadEvent::Chunk { bytes: vec![], read: 0 },
        chunk(b"GET / HTTP/1.1\r\n\r\n"),
    ];
    assert_eq!(h.handle_connection(&events), Err(OQError::InvalidHttpBuffer));
}

#[test]
fn the_serving_loop_follows_the_signal() {
    let h = handler();
    assert_eq!(h.keep_serving(true, Signal::Unchanged), Ok(true));
    assert_eq!(h.keep_serving(false, Signal::Unchanged), Ok(false));
    assert_eq!(h.keep_serving(true, Signal::Changed(false)), Ok(false));
    assert_eq!(h.keep_serving(false, Signal::Changed(true)), Ok(true));
    assert_eq!(h.keep_serving(true, Signal::Closed), Err(OQError::ReceiveError));
}

#[test]
fn an_endpoint_is_served_at_its_address() {
    assert_eq!(start(&handler()), Ok(SocketAddress::new(172, 19, 19, 244, 8080)));
}
