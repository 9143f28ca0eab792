use ssdp_client::query::{encode_query, format_decimal};
use ssdp_client::search_target::SearchTarget;

#[test]
fn root_device_query_is_byte_exact() {
    let msg = encode_query(&SearchTarget::RootDevice, 3);
    assert_eq!(
        msg,
        b"M-SEARCH * HTTP/1.1\r\nHost:239.255.255.250:1900\r\nMan:\"ssdp:discover\"\r\nST: upnp:rootdevice\r\nMX: 3\r\n\r\n"
            .to_vec()
    );
}

#[test]
fn all_wildcard_query_is_byte_exact() {
    let msg = encode_query(&SearchTarget::All, 10);
    assert_eq!(
        msg,
        b"M-SEARCH * HTTP/1.1\r\nHost:239.255.255.250:1900\r\nMan:\"ssdp:discover\"\r\nST: ssdp:all\r\nMX: 10\r\n\r\n"
            .to_vec()
    );
}

#[test]
fn urn_target_appears_verbatim_in_the_query() {
    let target = SearchTarget::Service {
        domain: b"schemas-upnp-org".to_vec(),
        service_type: b"ContentDirectory".to_vec(),
        version: b"1".to_vec(),
    };
    let msg = encode_query(&target, 2);
    let text = String::from_utf8(msg).unwrap();
    assert!(text.contains("ST: urn:schemas-upnp-org:service:ContentDirectory:1\r\n"));
    assert!(text.ends_with("\r\n\r\n"));
}

#[test]
fn decimal_formatting_is_exact() {
    assert_eq!(format_decimal(0), b"0".to_vec());
    assert_eq!(format_decimal(7), b"7".to_vec());
    assert_eq!(format_decimal(42), b"42".to_vec());
    assert_eq!(format_decimal(1900), b"1900".to_vec());
    assert_eq!(format_decimal(65535), b"65535".to_vec());
}
