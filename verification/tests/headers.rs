use ssdp_client::headers::{HeaderError, extract_headers, find_header};

fn names(list: &[&[u8]]) -> Vec<Vec<u8>> {
    list.iter().map(|n| n.to_vec()).collect()
}

#[test]
fn extracts_requested_headers_in_order() {
    let text = b"LOCATION: http://x\r\nST: ssdp:all\r\nUSN: uuid:123\r\n\r\n";
    let vals = extract_headers(text, &names(&[b"location", b"st", b"usn"])).unwrap();
    assert_eq!(
        vals,
        vec![b"http://x".to_vec(), b"ssdp:all".to_vec(), b"uuid:123".to_vec()]
    );
}

#[test]
fn missing_header_fails_with_its_name() {
    let text = b"LOCATION: http://x\r\nST: ssdp:all\r\n\r\n";
    let HeaderError::Missing(name) =
        extract_headers(text, &names(&[b"location", b"st", b"usn"])).unwrap_err();
    assert_eq!(name, b"usn".to_vec());
}

#[test]
fn first_missing_name_wins() {
    let text = b"USN: uuid:123\r\n";
    let HeaderError::Missing(name) =
        extract_headers(text, &names(&[b"location", b"st", b"usn"])).unwrap_err();
    assert_eq!(name, b"location".to_vec());
}

#[test]
fn names_match_case_insensitively() {
    let text = b"LoCaTiOn: http://y\r\n";
    assert_eq!(find_header(text, b"LOCATION"), Some(b"http://y".to_vec()));
    assert_eq!(find_header(text, b"location"), Some(b"http://y".to_vec()));
}

#[test]
fn values_are_trimmed() {
    let text = b"ST:   \t upnp:rootdevice  \t \r\n";
    assert_eq!(find_header(text, b"st"), Some(b"upnp:rootdevice".to_vec()));
}

#[test]
fn first_occurrence_wins_when_a_name_repeats() {
    let text = b"ST: first\r\nST: second\r\n";
    assert_eq!(find_header(text, b"st"), Some(b"first".to_vec()));
}

#[test]
fn non_matching_lines_are_ignored() {
    let text = b"HTTP/1.1 200 OK\r\nsome noise without a colon\r\nST: ssdp:all\r\n";
    assert_eq!(find_header(text, b"st"), Some(b"ssdp:all".to_vec()));
}

#[test]
fn absent_name_is_none() {
    assert_eq!(find_header(b"ST: ssdp:all\r\n", b"usn"), None);
    assert_eq!(find_header(b"", b"st"), None);
}

#[test]
fn value_may_contain_colons() {
    let text = b"LOCATION: http://192.168.1.1:1400/xml\r\n";
    assert_eq!(
        find_header(text, b"location"),
        Some(b"http://192.168.1.1:1400/xml".to_vec())
    );
}

#[test]
fn no_requested_names_succeeds_with_nothing() {
    let vals = extract_headers(b"ST: x\r\n", &names(&[])).unwrap();
    assert!(vals.is_empty());
}
