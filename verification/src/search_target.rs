//! The `ST` (search target) field of the discovery protocol: a closed set
//! of well-known wire forms plus an opaque fallback, with an exact,
//! invertible wire grammar.

use vstd::prelude::*;

use crate::ParseError;
use crate::bytes::{bytes_eq, copy_range, join_bytes, lemma_join_split, split_bytes, split_vec};

verus! {

/// Wire form of the all-devices wildcard, `"ssdp:all"`.
pub open spec fn ssdp_all() -> Seq<u8> {
    seq![115u8, 115, 100, 112, 58, 97, 108, 108]
}

/// Wire form of the root-device wildcard, `"upnp:rootdevice"`.
pub open spec fn upnp_rootdevice() -> Seq<u8> {
    seq![117u8, 112, 110, 112, 58, 114, 111, 111, 116, 100, 101, 118, 105, 99, 101]
}

/// The URN scheme label, `"urn"`.
pub open spec fn urn_label() -> Seq<u8> {
    seq![117u8, 114, 110]
}

/// The device-type label, `"device"`.
pub open spec fn device_label() -> Seq<u8> {
    seq![100u8, 101, 118, 105, 99, 101]
}

/// The service-type label, `"service"`.
pub open spec fn service_label() -> Seq<u8> {
    seq![115u8, 101, 114, 118, 105, 99, 101]
}

/// The colon separator of the URN form.
pub open spec fn colon() -> u8 {
    58u8
}

/// Fresh vector holding `"ssdp:all"`.
pub fn lit_ssdp_all() -> (v: Vec<u8>)
    ensures
        v@ == ssdp_all(),
{
    let v: Vec<u8> = vec![115u8, 115, 100, 112, 58, 97, 108, 108];
    proof {
        assert(v@ =~= ssdp_all());
    }
    v
}

/// Fresh vector holding `"upnp:rootdevice"`.
pub fn lit_upnp_rootdevice() -> (v: Vec<u8>)
    ensures
        v@ == upnp_rootdevice(),
{
    let v: Vec<u8> = vec![117u8, 112, 110, 112, 58, 114, 111, 111, 116, 100, 101, 118, 105, 99, 101];
    proof {
        assert(v@ =~= upnp_rootdevice());
    }
    v
}

/// Fresh vector holding `"urn"`.
pub fn lit_urn() -> (v: Vec<u8>)
    ensures
        v@ == urn_label(),
{
    let v: Vec<u8> = vec![117u8, 114, 110];
    proof {
        assert(v@ =~= urn_label());
    }
    v
}

/// Fresh vector holding `"device"`.
pub fn lit_device() -> (v: Vec<u8>)
    ensures
        v@ == device_label(),
{
    let v: Vec<u8> = vec![100u8, 101, 118, 105, 99, 101];
    proof {
        assert(v@ =~= device_label());
    }
    v
}

/// Fresh vector holding `"service"`.
pub fn lit_service() -> (v: Vec<u8>)
    ensures
        v@ == service_label(),
{
    let v: Vec<u8> = vec![115u8, 101, 114, 118, 105, 99, 101];
    proof {
        assert(v@ =~= service_label());
    }
    v
}

/// Mathematical model of a search target.
pub enum TargetView {
    All,
    RootDevice,
    Device { domain: Seq<u8>, device_type: Seq<u8>, version: Seq<u8> },
    Service { domain: Seq<u8>, service_type: Seq<u8>, version: Seq<u8> },
    Custom(Seq<u8>),
}

/// What is being searched for: both wildcards, URN-shaped device and
/// service types, or an opaque target kept verbatim.
#[derive(Debug)]
pub enum SearchTarget {
    /// All devices and services, `"ssdp:all"`.
    All,
    /// Root devices only, `"upnp:rootdevice"`.
    RootDevice,
    /// A device type, `"urn:{domain}:device:{device_type}:{version}"`.
    Device { domain: Vec<u8>, device_type: Vec<u8>, version: Vec<u8> },
    /// A service type, `"urn:{domain}:service:{service_type}:{version}"`.
    Service { domain: Vec<u8>, service_type: Vec<u8>, version: Vec<u8> },
    /// An unrecognized target, kept exactly as received.
    Custom(Vec<u8>),
}

impl View for SearchTarget {
    type V = TargetView;

    open spec fn view(&self) -> TargetView {
        match self {
            SearchTarget::All => TargetView::All,
            SearchTarget::RootDevice => TargetView::RootDevice,
            SearchTarget::Device { domain, device_type, version } => TargetView::Device {
                domain: domain@,
                device_type: device_type@,
                version: version@,
            },
            SearchTarget::Service { domain, service_type, version } => TargetView::Service {
                domain: domain@,
                service_type: service_type@,
                version: version@,
            },
            SearchTarget::Custom(s) => TargetView::Custom(s@),
        }
    }
}

/// The wire form of a search target.
pub open spec fn encoded(t: TargetView) -> Seq<u8> {
    match t {
        TargetView::All => ssdp_all(),
        TargetView::RootDevice => upnp_rootdevice(),
        TargetView::Device { domain, device_type, version } => urn_label() + seq![colon()] + domain
            + seq![colon()] + device_label() + seq![colon()] + device_type + seq![colon()]
            + version,
        TargetView::Service { domain, service_type, version } => urn_label() + seq![colon()]
            + domain + seq![colon()] + service_label() + seq![colon()] + service_type
            + seq![colon()] + version,
        TargetView::Custom(s) => s,
    }
}

/// The target a non-empty wire string decodes to: the wildcards and the two
/// URN shapes by exact match, anything else kept verbatim as `Custom`.
pub open spec fn decoded(s: Seq<u8>) -> TargetView {
    if s == ssdp_all() {
        TargetView::All
    } else if s == upnp_rootdevice() {
        TargetView::RootDevice
    } else {
        let p = split_bytes(s, colon());
        if p.len() == 5 && p[0] == urn_label() && p[2] == device_label() {
            TargetView::Device { domain: p[1], device_type: p[3], version: p[4] }
        } else if p.len() == 5 && p[0] == urn_label() && p[2] == service_label() {
            TargetView::Service { domain: p[1], service_type: p[3], version: p[4] }
        } else {
            TargetView::Custom(s)
        }
    }
}

/// Re-encoding a decoded wire string gives back exactly the original text,
/// for every non-empty input: the well-known forms reproduce themselves and
/// the opaque fallback keeps the text verbatim.
pub proof fn lemma_encode_decode(s: Seq<u8>)
    ensures
        encoded(decoded(s)) == s,
{
    if s != ssdp_all() && s != upnp_rootdevice() {
        let p = split_bytes(s, colon());
        if p.len() == 5 && p[0] == urn_label() && (p[2] == device_label() || p[2]
            == service_label()) {
            lemma_join_split(s, colon());
            let p1 = p.skip(1);
            let p2 = p1.skip(1);
            let p3 = p2.skip(1);
            let p4 = p3.skip(1);
            assert(p1[0] == p[1] && p1[1] == p[2] && p1[2] == p[3] && p1[3] == p[4]);
            assert(p2[0] == p[2] && p2[1] == p[3] && p2[2] == p[4]);
            assert(p3[0] == p[3] && p3[1] == p[4]);
            assert(p4[0] == p[4] && p4.len() == 1);
            assert(join_bytes(p, colon()) == p[0] + seq![colon()] + join_bytes(p1, colon()));
            assert(join_bytes(p1, colon()) == p[1] + seq![colon()] + join_bytes(p2, colon()));
            assert(join_bytes(p2, colon()) == p[2] + seq![colon()] + join_bytes(p3, colon()));
            assert(join_bytes(p3, colon()) == p[3] + seq![colon()] + join_bytes(p4, colon()));
            assert(join_bytes(p4, colon()) == p[4]);
            assert(encoded(decoded(s)) =~= s);
        }
    }
}

impl SearchTarget {
    /// Renders the wire form of this target.
    pub fn encode(&self) -> (r: Vec<u8>)
        ensures
            r@ == encoded(self@),
    {
        match self {
            SearchTarget::All => lit_ssdp_all(),
            SearchTarget::RootDevice => lit_upnp_rootdevice(),
            SearchTarget::Device { domain, device_type, version } => {
                let mut v = lit_urn();
                v.push(58);
                crate::bytes::push_all(&mut v, domain.as_slice());
                v.push(58);
                let dev = lit_device();
                crate::bytes::push_all(&mut v, dev.as_slice());
                v.push(58);
                crate::bytes::push_all(&mut v, device_type.as_slice());
                v.push(58);
                crate::bytes::push_all(&mut v, version.as_slice());
                proof {
                    assert(v@ =~= encoded(self@));
                }
                v
            },
            SearchTarget::Service { domain, service_type, version } => {
                let mut v = lit_urn();
                v.push(58);
                crate::bytes::push_all(&mut v, domain.as_slice());
                v.push(58);
                let svc = lit_service();
                crate::bytes::push_all(&mut v, svc.as_slice());
                v.push(58);
                crate::bytes::push_all(&mut v, service_type.as_slice());
                v.push(58);
                crate::bytes::push_all(&mut v, version.as_slice());
                proof {
                    assert(v@ =~= encoded(self@));
                }
                v
            },
            SearchTarget::Custom(s) => copy_range(s.as_slice(), 0, s.len()),
        }
    }

    /// Decodes wire text: empty text is refused, the well-known forms map to
    /// their variants, and any other text is accepted verbatim as `Custom`.
    pub fn decode(text: &[u8]) -> (r: Result<SearchTarget, ParseError>)
        ensures
            text@.len() == 0 <==> (r matches Err(e) && e == ParseError::EmptyTarget),
            text@.len() > 0 ==> (r matches Ok(t) && t@ == decoded(text@)),
    {
        if text.len() == 0 {
            return Err(ParseError::EmptyTarget);
        }
        let all = lit_ssdp_all();
        if bytes_eq(text, all.as_slice()) {
            return Ok(SearchTarget::All);
        }
        let root = lit_upnp_rootdevice();
        if bytes_eq(text, root.as_slice()) {
            return Ok(SearchTarget::RootDevice);
        }
        let mut parts = split_vec(text, 58);
        let ghost p = split_bytes(text@, colon());
        proof {
            assert(p == parts@.map_values(|v: Vec<u8>| v@));
            assert(p.len() == parts@.len());
            if parts@.len() == 5 {
                assert(p[0] == parts@[0]@);
                assert(p[1] == parts@[1]@);
                assert(p[2] == parts@[2]@);
                assert(p[3] == parts@[3]@);
                assert(p[4] == parts@[4]@);
            }
        }
        let urn = lit_urn();
        if parts.len() == 5 && bytes_eq(parts[0].as_slice(), urn.as_slice()) {
            let dev = lit_device();
            let svc = lit_service();
            let is_device = bytes_eq(parts[2].as_slice(), dev.as_slice());
            let is_service = bytes_eq(parts[2].as_slice(), svc.as_slice());
            if is_device || is_service {
                let version = parts.pop().unwrap();
                let kind_name = parts.pop().unwrap();
                let _label = parts.pop();
                let domain = parts.pop().unwrap();
                if is_device {
                    return Ok(SearchTarget::Device { domain, device_type: kind_name, version });
                }
                return Ok(SearchTarget::Service { domain, service_type: kind_name, version });
            }
        }
        let kept = copy_range(text, 0, text.len());
        proof {
            assert(kept@ =~= text@);
        }
        Ok(SearchTarget::Custom(kept))
    }
}

} // verus!
