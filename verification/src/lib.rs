//! SSDP-style service discovery: typed search targets, the M-SEARCH query
//! encoder, a resilient header parser for the HTTP-like response text, and
//! the decision logic of the time-bounded receive loop.
//!
//! Wire text is modelled as bytes throughout; received datagrams are
//! checked to be valid UTF-8 before parsing, and extracted values are
//! returned as fresh owned byte vectors (the extra copies are an accepted
//! cost, not a behaviour change).

use vstd::prelude::*;

pub mod bytes;
pub mod headers;
pub mod query;
pub mod response;
pub mod search_target;

verus! {

/// Errors of the search-target wire grammar.
#[derive(Debug, PartialEq, Eq, Structural, Clone, Copy)]
pub enum ParseError {
    /// The target text was empty.
    EmptyTarget,
}

/// Errors surfaced per datagram by the receive loop, or by the initial
/// bind/send when a search is started.
#[derive(Debug)]
pub enum Error {
    /// A transport-level bind, send or receive failure (other than timeout).
    Io,
    /// The received bytes were not valid UTF-8 text.
    Decode,
    /// A required header never appeared in the response text; carries the
    /// requested header name.
    HeaderMissing(Vec<u8>),
    /// The `ST` header value failed the search-target grammar.
    TargetParse(ParseError),
    /// The datagram filled the receive buffer exactly and may be truncated.
    BufferOverflow,
}

/// Mathematical model of an `Error`.
pub enum ErrorView {
    Io,
    Decode,
    HeaderMissing(Seq<u8>),
    TargetParse(ParseError),
    BufferOverflow,
}

impl View for Error {
    type V = ErrorView;

    open spec fn view(&self) -> ErrorView {
        match self {
            Error::Io => ErrorView::Io,
            Error::Decode => ErrorView::Decode,
            Error::HeaderMissing(n) => ErrorView::HeaderMissing(n@),
            Error::TargetParse(p) => ErrorView::TargetParse(*p),
            Error::BufferOverflow => ErrorView::BufferOverflow,
        }
    }
}

impl PartialEq for Error {
    fn eq(&self, other: &Error) -> (r: bool) {
        match (self, other) {
            (Error::Io, Error::Io) => true,
            (Error::Decode, Error::Decode) => true,
            (Error::HeaderMissing(a), Error::HeaderMissing(b)) => {
                crate::bytes::bytes_eq(a.as_slice(), b.as_slice())
            },
            (Error::TargetParse(a), Error::TargetParse(b)) => a == b,
            (Error::BufferOverflow, Error::BufferOverflow) => true,
            _ => false,
        }
    }
}

impl vstd::std_specs::cmp::PartialEqSpecImpl for Error {
    open spec fn obeys_eq_spec() -> bool {
        true
    }

    open spec fn eq_spec(&self, other: &Error) -> bool {
        self@ == other@
    }
}

} // verus!
