//! Resilient extraction of `Name: Value` headers from loosely structured,
//! HTTP-response-like text: lines are colon-delimited, names match
//! case-insensitively, values are trimmed, the first occurrence wins, and
//! non-matching lines are ignored.

use vstd::prelude::*;

use crate::bytes::{copy_range, eq_ci_range, find_byte, lower, scan_range, trim, trim_range};

verus! {

/// Byte view of a sequence of byte vectors.
pub open spec fn views(s: Seq<Vec<u8>>) -> Seq<Seq<u8>> {
    s.map_values(|v: Vec<u8>| v@)
}

/// Failure of header extraction.
#[derive(Debug)]
pub enum HeaderError {
    /// The carried requested name never appeared before the text ended.
    Missing(Vec<u8>),
}

impl View for HeaderError {
    type V = Seq<u8>;

    open spec fn view(&self) -> Seq<u8> {
        match self {
            HeaderError::Missing(n) => n@,
        }
    }
}

/// True when `line` has the `Name: Value` shape and its name part matches
/// `name` ASCII-case-insensitively.
pub open spec fn line_matches(line: Seq<u8>, name: Seq<u8>) -> bool {
    let c = find_byte(line, 58);
    c < line.len() && lower(line.take(c)) == lower(name)
}

/// The value part of a `Name: Value` line, trimmed of surrounding
/// whitespace and carriage control.
pub open spec fn line_value(line: Seq<u8>) -> Seq<u8>
    recommends
        find_byte(line, 58) < line.len(),
{
    let c = find_byte(line, 58);
    trim(line.skip(c + 1))
}

/// The value of the first newline-delimited line of `text` whose header
/// name matches `name`, or `None` when no line matches before the text ends.
pub open spec fn header_lookup(text: Seq<u8>, name: Seq<u8>) -> Option<Seq<u8>>
    decreases text.len(),
{
    if text.len() == 0 {
        None
    } else {
        let nl = find_byte(text, 10);
        let line = if 0 <= nl <= text.len() {
            text.take(nl)
        } else {
            text
        };
        if line_matches(line, name) {
            Some(line_value(line))
        } else if 0 <= nl < text.len() {
            header_lookup(text.skip(nl + 1), name)
        } else {
            None
        }
    }
}

/// Finds the first header named `name` (case-insensitively) in `text` and
/// returns its trimmed value.
pub fn find_header(text: &[u8], name: &[u8]) -> (r: Option<Vec<u8>>)
    ensures
        match r {
            Some(v) => header_lookup(text@, name@) == Some(v@),
            None => header_lookup(text@, name@) is None,
        },
{
    let mut pos: usize = 0;
    proof {
        assert(text@.skip(0) =~= text@);
    }
    loop
        invariant
            pos <= text@.len(),
            header_lookup(text@, name@) == header_lookup(text@.skip(pos as int), name@),
        decreases text@.len() - pos,
    {
        if pos == text.len() {
            proof {
                assert(text@.skip(pos as int) =~= Seq::<u8>::empty());
            }
            return None;
        }
        let nl = scan_range(text, pos, text.len(), 10);
        let c = scan_range(text, pos, nl, 58);
        proof {
            let sub = text@.skip(pos as int);
            assert(sub =~= text@.subrange(pos as int, text@.len() as int));
            assert(find_byte(sub, 10) == nl - pos);
            assert(sub.take(nl - pos) =~= text@.subrange(pos as int, nl as int));
            assert(find_byte(text@.subrange(pos as int, nl as int), 58) == c - pos);
            assert(text@.subrange(pos as int, nl as int).take(c - pos) =~= text@.subrange(
                pos as int,
                c as int,
            ));
        }
        if c < nl && eq_ci_range(text, pos, c, name) {
            let bounds = trim_range(text, c + 1, nl);
            let v = copy_range(text, bounds.0, bounds.1);
            proof {
                let line = text@.subrange(pos as int, nl as int);
                assert(line.skip(c - pos + 1) =~= text@.subrange(c + 1, nl as int));
                assert(line_value(line) == v@);
            }
            return Some(v);
        }
        proof {
            let sub = text@.skip(pos as int);
            let line = text@.subrange(pos as int, nl as int);
            assert(!line_matches(line, name@));
            if nl < text@.len() {
                assert(sub.skip(nl - pos + 1) =~= text@.skip(nl + 1));
            }
        }
        if nl < text.len() {
            pos = nl + 1;
        } else {
            proof {
                assert(header_lookup(text@.skip(pos as int), name@) is None);
            }
            return None;
        }
    }
}

/// The values of the requested headers in request order, or the first
/// requested name that never appears.
pub open spec fn extract_spec(text: Seq<u8>, names: Seq<Seq<u8>>) -> Result<Seq<Seq<u8>>, Seq<u8>>
    decreases names.len(),
{
    if names.len() == 0 {
        Ok(Seq::empty())
    } else {
        match header_lookup(text, names[0]) {
            None => Err(names[0]),
            Some(v) => match extract_spec(text, names.skip(1)) {
                Err(n) => Err(n),
                Ok(vs) => Ok(seq![v] + vs),
            },
        }
    }
}

pub proof fn lemma_extract_spec_ok(text: Seq<u8>, names: Seq<Seq<u8>>, vals: Seq<Seq<u8>>)
    requires
        vals.len() == names.len(),
        forall|j: int| 0 <= j < names.len() ==> header_lookup(text, names[j]) == Some(vals[j]),
    ensures
        extract_spec(text, names) == Ok::<Seq<Seq<u8>>, Seq<u8>>(vals),
    decreases names.len(),
{
    if names.len() == 0 {
        assert(vals =~= Seq::<Seq<u8>>::empty());
    } else {
        assert(forall|j: int|
            0 <= j < names.skip(1).len() ==> names.skip(1)[j] == names[j + 1] && vals.skip(1)[j]
                == vals[j + 1]);
        lemma_extract_spec_ok(text, names.skip(1), vals.skip(1));
        assert(seq![vals[0]] + vals.skip(1) =~= vals);
    }
}

pub proof fn lemma_extract_spec_err(text: Seq<u8>, names: Seq<Seq<u8>>, i: int)
    requires
        0 <= i < names.len(),
        forall|j: int| 0 <= j < i ==> header_lookup(text, names[j]) is Some,
        header_lookup(text, names[i]) is None,
    ensures
        extract_spec(text, names) == Err::<Seq<Seq<u8>>, Seq<u8>>(names[i]),
    decreases i,
{
    if i > 0 {
        assert(forall|j: int| 0 <= j < names.skip(1).len() ==> names.skip(1)[j] == names[j + 1]);
        lemma_extract_spec_err(text, names.skip(1), i - 1);
    }
}

/// Scans `text` for every requested header name, case-insensitively, and
/// returns the trimmed values positionally aligned with the names; fails
/// with the first requested name that never appears before the text ends.
pub fn extract_headers(text: &[u8], names: &[Vec<u8>]) -> (r: Result<Vec<Vec<u8>>, HeaderError>)
    ensures
        match r {
            Ok(vals) => extract_spec(text@, views(names@)) == Ok::<Seq<Seq<u8>>, Seq<u8>>(
                views(vals@),
            ),
            Err(e) => extract_spec(text@, views(names@)) == Err::<Seq<Seq<u8>>, Seq<u8>>(e@),
        },
{
    let mut vals: Vec<Vec<u8>> = Vec::new();
    let mut i: usize = 0;
    while i < names.len()
        invariant
            i <= names@.len(),
            vals@.len() == i,
            forall|j: int|
                0 <= j < i ==> header_lookup(text@, names@[j]@) == Some(vals@[j]@),
        decreases names@.len() - i,
    {
        match find_header(text, names[i].as_slice()) {
            Some(v) => {
                vals.push(v);
            },
            None => {
                proof {
                    assert(forall|j: int|
                        0 <= j < names@.len() ==> views(names@)[j] == names@[j]@);
                    lemma_extract_spec_err(text@, views(names@), i as int);
                }
                let n = copy_range(names[i].as_slice(), 0, names[i].len());
                proof {
                    assert(n@ =~= names@[i as int]@);
                }
                return Err(HeaderError::Missing(n));
            },
        }
        i += 1;
    }
    proof {
        assert(forall|j: int| 0 <= j < names@.len() ==> views(names@)[j] == names@[j]@);
        assert(forall|j: int| 0 <= j < vals@.len() ==> views(vals@)[j] == vals@[j]@);
        lemma_extract_spec_ok(text@, views(names@), views(vals@));
    }
    Ok(vals)
}

} // verus!
