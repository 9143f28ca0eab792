//! Decoding one received datagram into a typed response, and the decision
//! logic of the time-bounded receive loop: one receive race per iteration,
//! timeout ends the stream, every other failure is a per-item error.

use vstd::prelude::*;

use crate::{Error, ErrorView, ParseError};
use crate::bytes::check_utf8;
use crate::headers::{find_header, header_lookup};
use crate::search_target::{SearchTarget, TargetView, decoded};

verus! {

/// Size of the fixed receive buffer; a datagram filling it exactly is
/// treated as possibly truncated.
pub const RECV_BUFFER_SIZE: usize = 2048;

/// The header name `"location"`.
pub open spec fn location_name() -> Seq<u8> {
    seq![108u8, 111, 99, 97, 116, 105, 111, 110]
}

/// The header name `"st"`.
pub open spec fn st_name() -> Seq<u8> {
    seq![115u8, 116]
}

/// The header name `"usn"`.
pub open spec fn usn_name() -> Seq<u8> {
    seq![117u8, 115, 110]
}

/// Fresh vector holding `"location"`.
pub fn lit_location() -> (v: Vec<u8>)
    ensures
        v@ == location_name(),
{
    let v: Vec<u8> = vec![108u8, 111, 99, 97, 116, 105, 111, 110];
    proof {
        assert(v@ =~= location_name());
    }
    v
}

/// Fresh vector holding `"st"`.
pub fn lit_st() -> (v: Vec<u8>)
    ensures
        v@ == st_name(),
{
    let v: Vec<u8> = vec![115u8, 116];
    proof {
        assert(v@ =~= st_name());
    }
    v
}

/// Fresh vector holding `"usn"`.
pub fn lit_usn() -> (v: Vec<u8>)
    ensures
        v@ == usn_name(),
{
    let v: Vec<u8> = vec![117u8, 115, 110];
    proof {
        assert(v@ =~= usn_name());
    }
    v
}

/// Mathematical model of a `SearchResponse`.
pub struct ResponseView {
    pub location: Seq<u8>,
    pub st: TargetView,
    pub usn: Seq<u8>,
}

/// Response given by one control point: the immutable result of one
/// successfully parsed datagram.
#[derive(Debug)]
pub struct SearchResponse {
    location: Vec<u8>,
    st: SearchTarget,
    usn: Vec<u8>,
}

impl View for SearchResponse {
    type V = ResponseView;

    closed spec fn view(&self) -> ResponseView {
        ResponseView { location: self.location@, st: self.st@, usn: self.usn@ }
    }
}

impl SearchResponse {
    /// URL of the control point's service description.
    pub fn location(&self) -> (r: &Vec<u8>)
        ensures
            r@ == self@.location,
    {
        &self.location
    }

    /// Search target returned by the control point.
    pub fn search_target(&self) -> (r: &SearchTarget)
        ensures
            r@ == self@.st,
    {
        &self.st
    }

    /// Unique Service Name of the control point.
    pub fn usn(&self) -> (r: &Vec<u8>)
        ensures
            r@ == self@.usn,
    {
        &self.usn
    }
}

/// What one received datagram decodes to: text decoding, then extraction
/// of `location`, `st` and `usn` in that order, then the target grammar on
/// the `st` value; the first failure is the item's error.
pub open spec fn datagram_item(data: Seq<u8>) -> Result<ResponseView, ErrorView> {
    if !vstd::utf8::valid_utf8(data) {
        Err(ErrorView::Decode)
    } else if header_lookup(data, location_name()) is None {
        Err(ErrorView::HeaderMissing(location_name()))
    } else if header_lookup(data, st_name()) is None {
        Err(ErrorView::HeaderMissing(st_name()))
    } else if header_lookup(data, usn_name()) is None {
        Err(ErrorView::HeaderMissing(usn_name()))
    } else if header_lookup(data, st_name()).unwrap().len() == 0 {
        Err(ErrorView::TargetParse(ParseError::EmptyTarget))
    } else {
        Ok(
            ResponseView {
                location: header_lookup(data, location_name()).unwrap(),
                st: decoded(header_lookup(data, st_name()).unwrap()),
                usn: header_lookup(data, usn_name()).unwrap(),
            },
        )
    }
}

/// Byte view of a per-item result.
pub open spec fn item_view(r: Result<SearchResponse, Error>) -> Result<ResponseView, ErrorView> {
    match r {
        Ok(resp) => Ok(resp@),
        Err(e) => Err(e@),
    }
}

/// Decodes the bytes of one datagram into a typed response: UTF-8 check,
/// header extraction, and the search-target grammar, exactly as
/// `datagram_item` states.
pub fn parse_response(data: &[u8]) -> (r: Result<SearchResponse, Error>)
    ensures
        item_view(r) == datagram_item(data@),
{
    if !check_utf8(data) {
        return Err(Error::Decode);
    }
    let loc_name = lit_location();
    let location = match find_header(data, loc_name.as_slice()) {
        Some(v) => v,
        None => {
            return Err(Error::HeaderMissing(loc_name));
        },
    };
    let st_lit = lit_st();
    let st_value = match find_header(data, st_lit.as_slice()) {
        Some(v) => v,
        None => {
            return Err(Error::HeaderMissing(st_lit));
        },
    };
    let usn_lit = lit_usn();
    let usn = match find_header(data, usn_lit.as_slice()) {
        Some(v) => v,
        None => {
            return Err(Error::HeaderMissing(usn_lit));
        },
    };
    let st = match SearchTarget::decode(st_value.as_slice()) {
        Ok(t) => t,
        Err(e) => {
            return Err(Error::TargetParse(e));
        },
    };
    Ok(SearchResponse { location, st, usn })
}

/// How a build handles a datagram that filled the receive buffer exactly:
/// fail loud during development, degrade with a warning during operation.
#[derive(Debug, PartialEq, Eq, Structural, Clone, Copy)]
pub enum TruncationPolicy {
    /// Treat possible truncation as a fatal contract violation.
    Fatal,
    /// Warn through the logging collaborator and discard the datagram.
    WarnAndDiscard,
}

/// One event of the receive race: a datagram, the overall timeout, or a
/// transport-level receive failure.
#[derive(Debug)]
pub enum RecvEvent {
    /// A datagram arrived holding these bytes.
    Datagram(Vec<u8>),
    /// The fixed overall window elapsed.
    TimedOut,
    /// The transport failed with an error other than timeout.
    Failed,
}

/// What the receive loop does next with an event.
#[derive(Debug)]
pub enum StepAction {
    /// Emit this item and keep listening.
    Yield(Result<SearchResponse, Error>),
    /// Discard a possibly truncated datagram, warn, and keep listening.
    DiscardAndWarn,
    /// Abort: a possibly truncated datagram under the fatal policy.
    Abort,
    /// End the stream without an item; the sole normal termination.
    Close,
}

/// The outcome `handle_insufficient_buffer_size` owes each policy.
pub open spec fn truncation_action(policy: TruncationPolicy) -> StepAction {
    match policy {
        TruncationPolicy::Fatal => StepAction::Abort,
        TruncationPolicy::WarnAndDiscard => StepAction::DiscardAndWarn,
    }
}

/// Decides what a possibly truncated datagram leads to under `policy`.
pub fn handle_insufficient_buffer_size(policy: TruncationPolicy) -> (r: StepAction)
    ensures
        r == truncation_action(policy),
{
    match policy {
        TruncationPolicy::Fatal => StepAction::Abort,
        TruncationPolicy::WarnAndDiscard => StepAction::DiscardAndWarn,
    }
}

/// One iteration of the receive loop: decides, from the event the receive
/// race resolved to, whether to yield an item, discard, abort, or close.
/// Only the timeout closes the stream; every other failure stays an item.
pub fn process_event(event: RecvEvent, capacity: usize, policy: TruncationPolicy) -> (r:
    StepAction)
    ensures
        match event {
            RecvEvent::TimedOut => r matches StepAction::Close,
            RecvEvent::Failed => (r matches StepAction::Yield(item) && item_view(item) == Err::<
                ResponseView,
                ErrorView,
            >(ErrorView::Io)),
            RecvEvent::Datagram(d) => {
                if d@.len() >= capacity {
                    r == truncation_action(policy)
                } else {
                    (r matches StepAction::Yield(item) && item_view(item) == datagram_item(d@))
                }
            },
        },
{
    match event {
        RecvEvent::TimedOut => StepAction::Close,
        RecvEvent::Failed => StepAction::Yield(Err(Error::Io)),
        RecvEvent::Datagram(d) => {
            if d.len() >= capacity {
                handle_insufficient_buffer_size(policy)
            } else {
                StepAction::Yield(parse_response(d.as_slice()))
            }
        },
    }
}

/// The warning and panic text of the truncation paths.
pub fn insufficient_buffer_msg() -> (s: &'static str)
    ensures
        s@ == "buffer size too small, udp packets lost"@,
{
    "buffer size too small, udp packets lost"
}

} // verus!
