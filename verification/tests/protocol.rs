//! The protocol client runtime, driven against a fake server.

use pkm::lsp::{Error, LSP};

/// One framed response carrying `body`.
fn framed(body: &str) -> Vec<u8> {
    format!("Content-Length: {}\r\n\r\n{}", body.len(), body).into_bytes()
}

#[test]
fn initialize_handshake_reaches_ready() {
    let mut lsp = LSP::new();
    let (id, frame) = lsp.start_initialize("/tmp/repo").unwrap();
    assert_eq!(id, 0);
    let text = String::from_utf8(frame).unwrap();
    assert!(text.starts_with("Content-Length: "));
    assert!(text.contains("\"method\":\"initialize\""));
    assert!(text.contains("\"rootUri\":\"file:///tmp/repo\""));
    assert!(text.contains("\"rootPath\":\"file:///tmp/repo\""));
    assert!(text.contains("\"name\":\"root\""));

    lsp.feed(&framed("{\"jsonrpc\":\"2.0\",\"id\":0,\"result\":{}}"));
    assert_eq!(lsp.pump().unwrap(), 1);
    assert!(lsp.poll_initialize().unwrap());
}

#[test]
fn goto_definition_resolves_single_location() {
    let mut lsp = LSP::new();
    let (id, _frame) = lsp.start_initialize("/tmp/repo").unwrap();
    lsp.feed(&framed("{\"jsonrpc\":\"2.0\",\"id\":0,\"result\":{}}"));
    lsp.pump().unwrap();
    assert!(lsp.poll_initialize().unwrap());
    assert_eq!(id, 0);

    let (gid, gframe) = lsp.start_goto_definition("notes/a.md", 4, 10).unwrap();
    assert_eq!(gid, 1);
    let gtext = String::from_utf8(gframe).unwrap();
    assert!(gtext.contains("\"method\":\"textDocument/definition\""));
    assert!(gtext.contains("\"uri\":\"file://notes/a.md\""));
    assert!(gtext.contains("\"line\":4"));
    assert!(gtext.contains("\"character\":10"));

    let body = format!(
        "{{\"jsonrpc\":\"2.0\",\"id\":{},\"result\":{{\"uri\":\"file:///tmp/repo/notes/b.md\",\"range\":{{\"start\":{{\"line\":1,\"character\":2}},\"end\":{{\"line\":1,\"character\":3}}}}}}}}",
        gid
    );
    lsp.feed(&framed(&body));
    lsp.pump().unwrap();
    let locations = lsp.poll_goto_definition(gid).unwrap().unwrap();
    assert_eq!(locations.len(), 1);
    assert_eq!(locations[0].uri, "file:///tmp/repo/notes/b.md");
}

#[test]
fn goto_definition_resolves_location_list() {
    let mut lsp = LSP::new();
    lsp.start_initialize("/r").unwrap();
    lsp.feed(&framed("{\"jsonrpc\":\"2.0\",\"id\":0,\"result\":{}}"));
    lsp.pump().unwrap();
    lsp.poll_initialize().unwrap();

    let (gid, _) = lsp.start_goto_definition("a.md", 0, 0).unwrap();
    let body = format!(
        "{{\"jsonrpc\":\"2.0\",\"id\":{},\"result\":[{{\"uri\":\"file:///r/x.md\"}},{{\"uri\":\"file:///r/y.md\"}}]}}",
        gid
    );
    lsp.feed(&framed(&body));
    lsp.pump().unwrap();
    let locations = lsp.poll_goto_definition(gid).unwrap().unwrap();
    assert_eq!(locations.len(), 2);
    assert_eq!(locations[0].uri, "file:///r/x.md");
    assert_eq!(locations[1].uri, "file:///r/y.md");
}

#[test]
fn goto_definition_links_resolve_to_no_locations() {
    let mut lsp = LSP::new();
    lsp.start_initialize("/r").unwrap();
    lsp.feed(&framed("{\"jsonrpc\":\"2.0\",\"id\":0,\"result\":{}}"));
    lsp.pump().unwrap();
    lsp.poll_initialize().unwrap();

    let (gid, _) = lsp.start_goto_definition("a.md", 0, 0).unwrap();
    let body = format!(
        "{{\"jsonrpc\":\"2.0\",\"id\":{},\"result\":[{{\"targetUri\":\"file:///r/x.md\",\"targetRange\":{{}}}}]}}",
        gid
    );
    lsp.feed(&framed(&body));
    lsp.pump().unwrap();
    let locations = lsp.poll_goto_definition(gid).unwrap().unwrap();
    assert_eq!(locations.len(), 0);
}

#[test]
fn concurrent_requests_each_get_their_own_echo() {
    let mut lsp = LSP::new();
    let mut ids = Vec::new();
    for n in 0..4u32 {
        let params = format!("{{\"n\":{}}}", n);
        let (id, _) = lsp.start_request("echo", params.as_bytes()).unwrap();
        ids.push(id);
    }
    // answer them all, interleaved worst-case: highest id first
    for n in (0..4u32).rev() {
        let body = format!(
            "{{\"jsonrpc\":\"2.0\",\"id\":{},\"result\":{{\"n\":{}}}}}",
            ids[n as usize], n
        );
        lsp.feed(&framed(&body));
    }
    assert_eq!(lsp.pump().unwrap(), 4);
    for n in 0..4u32 {
        let frame = lsp.poll_response(ids[n as usize]).unwrap().unwrap();
        assert_eq!(frame.id, ids[n as usize]);
        assert!(!frame.is_error);
        assert_eq!(frame.raw, format!("{{\"n\":{}}}", n));
    }
}

#[test]
fn out_of_order_delivery_still_correlates() {
    let mut lsp = LSP::new();
    let (id1, _) = lsp.start_request("a", b"1").unwrap();
    let (id2, _) = lsp.start_request("b", b"2").unwrap();
    // the server answers id2 before id1
    lsp.feed(&framed(&format!(
        "{{\"jsonrpc\":\"2.0\",\"id\":{},\"result\":\"two\"}}",
        id2
    )));
    lsp.feed(&framed(&format!(
        "{{\"jsonrpc\":\"2.0\",\"id\":{},\"result\":\"one\"}}",
        id1
    )));
    assert_eq!(lsp.pump().unwrap(), 2);
    let f1 = lsp.poll_response(id1).unwrap().unwrap();
    let f2 = lsp.poll_response(id2).unwrap().unwrap();
    assert_eq!(f1.id, id1);
    assert_eq!(f1.raw, "\"one\"");
    assert_eq!(f2.id, id2);
    assert_eq!(f2.raw, "\"two\"");
}

#[test]
fn stream_end_releases_every_waiter_exactly_once() {
    let mut lsp = LSP::new();
    let mut ids = Vec::new();
    for _ in 0..3 {
        let (id, _) = lsp.start_request("q", b"{}").unwrap();
        ids.push(id);
    }
    lsp.on_stream_end();
    let mut errors = 0;
    for id in &ids {
        // each waiter polls until its first definite answer, which is one error
        match lsp.poll_response(*id) {
            Err(Error::Closed) => errors += 1,
            other => panic!("expected the closed error, got {:?}", other.map(|_| ())),
        }
    }
    assert_eq!(errors, 3);
}

#[test]
fn responses_arriving_before_the_wait_are_retained() {
    let mut lsp = LSP::new();
    let (id, _) = lsp.start_request("q", b"{}").unwrap();
    lsp.feed(&framed(&format!(
        "{{\"jsonrpc\":\"2.0\",\"id\":{},\"result\":7}}",
        id
    )));
    lsp.pump().unwrap();
    // the stream may even end before the caller starts waiting
    lsp.on_stream_end();
    let frame = lsp.poll_response(id).unwrap().unwrap();
    assert_eq!(frame.id, id);
    assert_eq!(frame.raw, "7");
}

#[test]
fn malformed_header_halts_dispatch_and_keeps_claimed_responses() {
    let mut lsp = LSP::new();
    let (id1, _) = lsp.start_request("a", b"1").unwrap();
    let (id2, _) = lsp.start_request("b", b"2").unwrap();
    lsp.feed(&framed(&format!(
        "{{\"jsonrpc\":\"2.0\",\"id\":{},\"result\":\"good\"}}",
        id1
    )));
    lsp.pump().unwrap();
    let claimed = lsp.poll_response(id1).unwrap().unwrap();

    // a header line without a colon poisons the stream
    lsp.feed(b"NoColonHere\r\n\r\n");
    match lsp.pump() {
        Err(Error::MalformedHeader) => {}
        other => panic!("expected a malformed header, got {:?}", other.map(|_| ())),
    }
    // further dispatch is halted: the pending waiter is released with the error
    match lsp.poll_response(id2) {
        Err(Error::MalformedHeader) => {}
        other => panic!("expected the terminal error, got {:?}", other.map(|_| ())),
    }
    // what was already claimed remains valid
    assert_eq!(claimed.id, id1);
    assert_eq!(claimed.raw, "\"good\"");
}

#[test]
fn frames_before_a_violation_stay_claimable() {
    let mut lsp = LSP::new();
    let (id, _) = lsp.start_request("a", b"1").unwrap();
    // one good frame and then garbage arrive in the same chunk
    let mut bytes = framed(&format!("{{\"jsonrpc\":\"2.0\",\"id\":{},\"result\":5}}", id));
    bytes.extend_from_slice(b"NoColon\r\n\r\n");
    lsp.feed(&bytes);
    assert!(matches!(lsp.pump(), Err(Error::MalformedHeader)));
    // the frame published before the violation is still handed over
    assert_eq!(lsp.poll_response(id).unwrap().unwrap().raw, "5");
}

#[test]
fn missing_content_length_is_its_own_error() {
    let mut lsp = LSP::new();
    lsp.feed(b"Content-Type: application/json\r\n\r\n");
    match lsp.pump() {
        Err(Error::MissingContentLength) => {}
        other => panic!("expected a missing length, got {:?}", other.map(|_| ())),
    }
}

#[test]
fn unreadable_length_is_a_decode_error() {
    let mut lsp = LSP::new();
    lsp.feed(b"Content-Length: ten\r\n\r\n");
    match lsp.pump() {
        Err(Error::DecodeError) => {}
        other => panic!("expected a decode error, got {:?}", other.map(|_| ())),
    }
}

#[test]
fn unreadable_body_is_a_decode_error() {
    let mut lsp = LSP::new();
    lsp.feed(&framed("this is not json"));
    match lsp.pump() {
        Err(Error::DecodeError) => {}
        other => panic!("expected a decode error, got {:?}", other.map(|_| ())),
    }
}

#[test]
fn partial_frames_wait_for_more_bytes() {
    let mut lsp = LSP::new();
    let (id, _) = lsp.start_request("q", b"{}").unwrap();
    let full = framed(&format!("{{\"jsonrpc\":\"2.0\",\"id\":{},\"result\":1}}", id));
    let (first, second) = full.split_at(10);
    lsp.feed(first);
    assert_eq!(lsp.pump().unwrap(), 0);
    assert!(lsp.poll_response(id).unwrap().is_none());
    lsp.feed(second);
    assert_eq!(lsp.pump().unwrap(), 1);
    assert_eq!(lsp.poll_response(id).unwrap().unwrap().raw, "1");
}

#[test]
fn several_buffered_frames_all_dispatch_in_one_pump() {
    let mut lsp = LSP::new();
    let (id1, _) = lsp.start_request("a", b"1").unwrap();
    let (id2, _) = lsp.start_request("b", b"2").unwrap();
    let mut bytes = framed(&format!("{{\"jsonrpc\":\"2.0\",\"id\":{},\"result\":1}}", id1));
    bytes.extend_from_slice(&framed(&format!(
        "{{\"jsonrpc\":\"2.0\",\"id\":{},\"result\":2}}",
        id2
    )));
    lsp.feed(&bytes);
    assert_eq!(lsp.pump().unwrap(), 2);
    assert_eq!(lsp.poll_response(id1).unwrap().unwrap().raw, "1");
    assert_eq!(lsp.poll_response(id2).unwrap().unwrap().raw, "2");
}

#[test]
fn error_payload_surfaces_to_the_initializing_caller() {
    let mut lsp = LSP::new();
    let (id, _) = lsp.start_initialize("/r").unwrap();
    lsp.feed(&framed(&format!(
        "{{\"jsonrpc\":\"2.0\",\"id\":{},\"error\":{{\"code\":-32600,\"message\":\"bad\"}}}}",
        id
    )));
    lsp.pump().unwrap();
    match lsp.poll_initialize() {
        Err(Error::LSPError(m)) => assert!(m.contains("-32600")),
        other => panic!("expected the surfaced error, got {:?}", other.map(|_| ())),
    }
}

#[test]
fn calls_before_ready_and_after_close_are_refused() {
    let mut lsp = LSP::new();
    match lsp.start_goto_definition("a.md", 0, 0) {
        Err(Error::NotReady) => {}
        other => panic!("expected not ready, got {:?}", other.map(|_| ())),
    }
    lsp.on_stream_end();
    match lsp.start_goto_definition("a.md", 0, 0) {
        Err(Error::Closed) => {}
        other => panic!("expected closed, got {:?}", other.map(|_| ())),
    }
    match lsp.start_request("q", b"{}") {
        Err(Error::Closed) => {}
        other => panic!("expected closed, got {:?}", other.map(|_| ())),
    }
}

#[test]
fn initialize_runs_exactly_once() {
    let mut lsp = LSP::new();
    lsp.start_initialize("/r").unwrap();
    match lsp.start_initialize("/r") {
        Err(Error::LSPError(_)) => {}
        other => panic!("expected a refusal, got {:?}", other.map(|_| ())),
    }
}

#[test]
fn open_virtual_announces_the_document() {
    let mut lsp = LSP::new();
    lsp.start_initialize("/r").unwrap();
    lsp.feed(&framed("{\"jsonrpc\":\"2.0\",\"id\":0,\"result\":{}}"));
    lsp.pump().unwrap();
    lsp.poll_initialize().unwrap();

    let (id, frame) = lsp.open_virtual("notes/v.md", "line one\nline two", "markdown").unwrap();
    assert_eq!(id, 1);
    let text = String::from_utf8(frame).unwrap();
    assert!(text.contains("\"method\":\"textDocument/didOpen\""));
    assert!(text.contains("\"uri\":\"file://notes/v.md\""));
    assert!(text.contains("\"languageId\":\"markdown\""));
    assert!(text.contains("\"version\":1"));
    // the line break of the content is escaped on the wire
    assert!(text.contains("line one\\nline two"));
}
