use ssdp_client::{Error, ParseError};
use ssdp_client::response::{
    RECV_BUFFER_SIZE, RecvEvent, SearchResponse, StepAction, TruncationPolicy,
    handle_insufficient_buffer_size, insufficient_buffer_msg, parse_response, process_event,
};
use ssdp_client::search_target::SearchTarget;

const DATAGRAM: &[u8] = b"HTTP/1.1 200 OK\r\nLOCATION: http://x\r\nST: ssdp:all\r\nUSN: uuid:123\r\n\r\n";

fn unwrap_yield(action: StepAction) -> Result<SearchResponse, Error> {
    match action {
        StepAction::Yield(item) => item,
        other => panic!("expected a yielded item, got {:?}", other),
    }
}

#[test]
fn parses_a_full_response() {
    let resp = parse_response(DATAGRAM).unwrap();
    assert_eq!(resp.location(), &b"http://x".to_vec());
    assert!(matches!(resp.search_target(), SearchTarget::All));
    assert_eq!(resp.usn(), &b"uuid:123".to_vec());
}

#[test]
fn invalid_utf8_is_a_decode_error() {
    let err = parse_response(b"LOCATION: http://x\r\n\xff\xfe\r\n").unwrap_err();
    assert_eq!(err, Error::Decode);
}

#[test]
fn multibyte_text_is_accepted() {
    let resp =
        parse_response("LOCATION: http://\u{e9}\r\nST: ssdp:all\r\nUSN: uuid:1\r\n".as_bytes())
            .unwrap();
    assert_eq!(resp.location(), &"http://\u{e9}".as_bytes().to_vec());
}

#[test]
fn each_missing_header_is_named() {
    let err = parse_response(b"ST: ssdp:all\r\nUSN: uuid:1\r\n").unwrap_err();
    assert_eq!(err, Error::HeaderMissing(b"location".to_vec()));
    let err = parse_response(b"LOCATION: http://x\r\nUSN: uuid:1\r\n").unwrap_err();
    assert_eq!(err, Error::HeaderMissing(b"st".to_vec()));
    let err = parse_response(b"LOCATION: http://x\r\nST: ssdp:all\r\n").unwrap_err();
    assert_eq!(err, Error::HeaderMissing(b"usn".to_vec()));
}

#[test]
fn empty_search_target_is_a_parse_error() {
    let err = parse_response(b"LOCATION: http://x\r\nST: \r\nUSN: uuid:1\r\n").unwrap_err();
    assert_eq!(err, Error::TargetParse(ParseError::EmptyTarget));
}

#[test]
fn two_datagrams_then_silence_yield_two_items_then_close() {
    let policy = TruncationPolicy::WarnAndDiscard;
    let first = process_event(
        RecvEvent::Datagram(DATAGRAM.to_vec()),
        RECV_BUFFER_SIZE,
        policy,
    );
    let resp = unwrap_yield(first).unwrap();
    assert_eq!(resp.usn(), &b"uuid:123".to_vec());

    let second_bytes = b"LOCATION: http://y\r\nST: upnp:rootdevice\r\nUSN: uuid:456\r\n\r\n";
    let second = process_event(
        RecvEvent::Datagram(second_bytes.to_vec()),
        RECV_BUFFER_SIZE,
        policy,
    );
    let resp = unwrap_yield(second).unwrap();
    assert_eq!(resp.location(), &b"http://y".to_vec());
    assert_eq!(resp.usn(), &b"uuid:456".to_vec());

    let end = process_event(RecvEvent::TimedOut, RECV_BUFFER_SIZE, policy);
    assert!(matches!(end, StepAction::Close));
}

#[test]
fn full_buffer_is_discarded_in_production_and_later_datagrams_still_emit() {
    let policy = TruncationPolicy::WarnAndDiscard;
    let full = vec![b'x'; RECV_BUFFER_SIZE];
    let action = process_event(RecvEvent::Datagram(full), RECV_BUFFER_SIZE, policy);
    assert!(matches!(action, StepAction::DiscardAndWarn));

    let next = process_event(
        RecvEvent::Datagram(DATAGRAM.to_vec()),
        RECV_BUFFER_SIZE,
        policy,
    );
    let resp = unwrap_yield(next).unwrap();
    assert_eq!(resp.location(), &b"http://x".to_vec());
}

#[test]
fn full_buffer_is_fatal_under_the_fatal_policy() {
    let full = vec![b'x'; RECV_BUFFER_SIZE];
    let action = process_event(
        RecvEvent::Datagram(full),
        RECV_BUFFER_SIZE,
        TruncationPolicy::Fatal,
    );
    assert!(matches!(action, StepAction::Abort));
}

#[test]
fn truncation_outcome_follows_the_policy() {
    assert!(matches!(
        handle_insufficient_buffer_size(TruncationPolicy::Fatal),
        StepAction::Abort
    ));
    assert!(matches!(
        handle_insufficient_buffer_size(TruncationPolicy::WarnAndDiscard),
        StepAction::DiscardAndWarn
    ));
    assert_eq!(
        insufficient_buffer_msg(),
        "buffer size too small, udp packets lost"
    );
}

#[test]
fn transport_failure_is_an_io_item_and_keeps_listening() {
    let action = process_event(RecvEvent::Failed, RECV_BUFFER_SIZE, TruncationPolicy::Fatal);
    let item = unwrap_yield(action);
    assert_eq!(item.unwrap_err(), Error::Io);
}

#[test]
fn bad_item_does_not_close_the_stream() {
    let policy = TruncationPolicy::WarnAndDiscard;
    let bad = process_event(
        RecvEvent::Datagram(b"no headers here".to_vec()),
        RECV_BUFFER_SIZE,
        policy,
    );
    let err = unwrap_yield(bad).unwrap_err();
    assert_eq!(err, Error::HeaderMissing(b"location".to_vec()));

    let good = process_event(
        RecvEvent::Datagram(DATAGRAM.to_vec()),
        RECV_BUFFER_SIZE,
        policy,
    );
    assert!(unwrap_yield(good).is_ok());
}
