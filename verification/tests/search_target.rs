use ssdp_client::ParseError;
use ssdp_client::search_target::SearchTarget;

fn round_trip(wire: &[u8]) -> Vec<u8> {
    SearchTarget::decode(wire).unwrap().encode()
}

#[test]
fn decode_all_wildcard() {
    let t = SearchTarget::decode(b"ssdp:all").unwrap();
    assert!(matches!(t, SearchTarget::All));
}

#[test]
fn decode_root_device() {
    let t = SearchTarget::decode(b"upnp:rootdevice").unwrap();
    assert!(matches!(t, SearchTarget::RootDevice));
}

#[test]
fn decode_device_urn() {
    let t = SearchTarget::decode(b"urn:schemas-upnp-org:device:ZonePlayer:1").unwrap();
    match t {
        SearchTarget::Device { domain, device_type, version } => {
            assert_eq!(domain, b"schemas-upnp-org".to_vec());
            assert_eq!(device_type, b"ZonePlayer".to_vec());
            assert_eq!(version, b"1".to_vec());
        }
        other => panic!("expected device variant, got {:?}", other),
    }
}

#[test]
fn decode_service_urn() {
    let t = SearchTarget::decode(b"urn:schemas-upnp-org:service:RenderingControl:2").unwrap();
    match t {
        SearchTarget::Service { domain, service_type, version } => {
            assert_eq!(domain, b"schemas-upnp-org".to_vec());
            assert_eq!(service_type, b"RenderingControl".to_vec());
            assert_eq!(version, b"2".to_vec());
        }
        other => panic!("expected service variant, got {:?}", other),
    }
}

#[test]
fn decode_unknown_falls_back_to_custom() {
    let t = SearchTarget::decode(b"uuid:2fac1234-31f8-11b4-a222-08002b34c003").unwrap();
    match t {
        SearchTarget::Custom(s) => {
            assert_eq!(s, b"uuid:2fac1234-31f8-11b4-a222-08002b34c003".to_vec());
        }
        other => panic!("expected custom variant, got {:?}", other),
    }
}

#[test]
fn decode_empty_is_an_error() {
    assert_eq!(SearchTarget::decode(b"").unwrap_err(), ParseError::EmptyTarget);
}

#[test]
fn encode_of_decode_reproduces_well_known_forms() {
    for wire in [
        b"ssdp:all".as_slice(),
        b"upnp:rootdevice",
        b"urn:schemas-upnp-org:device:ZonePlayer:1",
        b"urn:schemas-upnp-org:service:RenderingControl:2",
        b"urn:schemas-sonos-com:service:Queue:1",
    ] {
        assert_eq!(round_trip(wire), wire.to_vec());
    }
}

#[test]
fn encode_of_decode_reproduces_arbitrary_text() {
    for wire in [
        b"uuid:abc".as_slice(),
        b"urn:too:few",
        b"urn:a:b:c:d:e",
        b"urn:x:neither:y:1",
        b"::::",
        b"just some text",
    ] {
        assert_eq!(round_trip(wire), wire.to_vec());
    }
}

#[test]
fn encode_device_urn() {
    let t = SearchTarget::Device {
        domain: b"schemas-upnp-org".to_vec(),
        device_type: b"Basic".to_vec(),
        version: b"1".to_vec(),
    };
    assert_eq!(t.encode(), b"urn:schemas-upnp-org:device:Basic:1".to_vec());
}

#[test]
fn encode_wildcards() {
    assert_eq!(SearchTarget::All.encode(), b"ssdp:all".to_vec());
    assert_eq!(SearchTarget::RootDevice.encode(), b"upnp:rootdevice".to_vec());
}
