//! The outbound M-SEARCH query message: a byte-exact rendering of the
//! multicast request, including decimal formatting of the MX
//! response-window hint.

use vstd::prelude::*;

use crate::bytes::push_all;
use crate::search_target::{SearchTarget, TargetView, encoded};

verus! {

/// Decimal digits of `n`, most significant first, with no leading zeros
/// (a single `'0'` for zero).
pub open spec fn dec_digits(n: nat) -> Seq<u8>
    decreases n,
{
    if n < 10 {
        seq![(48 + n) as u8]
    } else {
        dec_digits(n / 10) + seq![(48 + n % 10) as u8]
    }
}

/// Renders `n` in decimal.
pub fn format_decimal(n: usize) -> (r: Vec<u8>)
    ensures
        r@ == dec_digits(n as nat),
    decreases n,
{
    if n < 10 {
        let d: u8 = 48 + (n as u8);
        let v: Vec<u8> = vec![d];
        proof {
            assert(v@ =~= dec_digits(n as nat));
        }
        v
    } else {
        proof {
            assert(n / 10 < n) by (nonlinear_arith)
                requires
                    n >= 10,
            ;
        }
        let mut v = format_decimal(n / 10);
        let d: u8 = 48 + ((n % 10) as u8);
        v.push(d);
        proof {
            assert(v@ =~= dec_digits(n as nat));
        }
        v
    }
}

/// Everything of the query up to and including `"ST: "`:
/// `"M-SEARCH * HTTP/1.1\r\nHost:239.255.255.250:1900\r\nMan:\"ssdp:discover\"\r\nST: "`.
pub open spec fn query_prefix() -> Seq<u8> {
    seq![
        77u8, 45, 83, 69, 65, 82, 67, 72, 32, 42, 32, 72, 84, 84, 80, 47, 49, 46, 49, 13, 10, 72,
        111, 115, 116, 58, 50, 51, 57, 46, 50, 53, 53, 46, 50, 53, 53, 46, 50, 53, 48, 58, 49, 57,
        48, 48, 13, 10, 77, 97, 110, 58, 34, 115, 115, 100, 112, 58, 100, 105, 115, 99, 111, 118,
        101, 114, 34, 13, 10, 83, 84, 58, 32,
    ]
}

/// The `"\r\nMX: "` label between the target and the response window.
pub open spec fn mx_label() -> Seq<u8> {
    seq![13u8, 10, 77, 88, 58, 32]
}

/// The blank-line message terminator, `"\r\n\r\n"`.
pub open spec fn terminator() -> Seq<u8> {
    seq![13u8, 10, 13, 10]
}

/// The exact bytes of the outbound query for `target` and response-window
/// hint `mx`.
pub open spec fn query_bytes(target: TargetView, mx: nat) -> Seq<u8> {
    query_prefix() + encoded(target) + mx_label() + dec_digits(mx) + terminator()
}

/// Fresh vector holding the query prefix.
pub fn lit_query_prefix() -> (v: Vec<u8>)
    ensures
        v@ == query_prefix(),
{
    let v: Vec<u8> = vec![
        77u8, 45, 83, 69, 65, 82, 67, 72, 32, 42, 32, 72, 84, 84, 80, 47, 49, 46, 49, 13, 10, 72,
        111, 115, 116, 58, 50, 51, 57, 46, 50, 53, 53, 46, 50, 53, 53, 46, 50, 53, 48, 58, 49, 57,
        48, 48, 13, 10, 77, 97, 110, 58, 34, 115, 115, 100, 112, 58, 100, 105, 115, 99, 111, 118,
        101, 114, 34, 13, 10, 83, 84, 58, 32,
    ];
    proof {
        assert(v@ =~= query_prefix());
    }
    v
}

/// Renders the outbound M-SEARCH message for `target`, asking responders to
/// delay at most `mx` seconds. Byte-exact: responders parse this
/// syntactically, so line terminators and the blank-line ending matter.
pub fn encode_query(target: &SearchTarget, mx: usize) -> (r: Vec<u8>)
    ensures
        r@ == query_bytes(target@, mx as nat),
{
    let mut v = lit_query_prefix();
    let st = target.encode();
    push_all(&mut v, st.as_slice());
    let label: Vec<u8> = vec![13u8, 10, 77, 88, 58, 32];
    proof {
        assert(label@ =~= mx_label());
    }
    push_all(&mut v, label.as_slice());
    let digits = format_decimal(mx);
    push_all(&mut v, digits.as_slice());
    let term: Vec<u8> = vec![13u8, 10, 13, 10];
    proof {
        assert(term@ =~= terminator());
    }
    push_all(&mut v, term.as_slice());
    proof {
        assert(v@ =~= query_bytes(target@, mx as nat));
    }
    v
}

} // verus!
