//! Byte-sequence helpers shared by the target grammar, the header parser
//! and the query encoder: searching, trimming, case folding and splitting.

use vstd::prelude::*;

verus! {

/// Index of the first occurrence of `b` in `s`, or `s.len()` if absent.
pub open spec fn find_byte(s: Seq<u8>, b: u8) -> int
    decreases s.len(),
{
    if s.len() == 0 {
        0
    } else if s[0] == b {
        0
    } else {
        1 + find_byte(s.skip(1), b)
    }
}

pub proof fn lemma_find_byte_bounds(s: Seq<u8>, b: u8)
    ensures
        0 <= find_byte(s, b) <= s.len(),
        find_byte(s, b) < s.len() ==> s[find_byte(s, b)] == b,
        forall|j: int| 0 <= j < find_byte(s, b) ==> s[j] != b,
    decreases s.len(),
{
    if s.len() != 0 && s[0] != b {
        lemma_find_byte_bounds(s.skip(1), b);
        assert forall|j: int| 0 <= j < find_byte(s, b) implies s[j] != b by {
            if j > 0 {
                assert(s.skip(1)[j - 1] == s[j]);
            }
        }
    }
}

/// `find_byte` is determined by its characteristic property, which an
/// executable scan establishes directly.
pub proof fn lemma_find_byte_from_scan(s: Seq<u8>, b: u8, i: int)
    requires
        0 <= i <= s.len(),
        forall|j: int| 0 <= j < i ==> s[j] != b,
        i < s.len() ==> s[i] == b,
    ensures
        find_byte(s, b) == i,
    decreases s.len(),
{
    if s.len() != 0 && s[0] != b {
        assert(forall|j: int| 0 <= j < i - 1 ==> s.skip(1)[j] == s[j + 1]);
        lemma_find_byte_from_scan(s.skip(1), b, i - 1);
    }
}

/// First index in `[from, to)` holding `b`, or `to` if absent there.
pub fn scan_range(s: &[u8], from: usize, to: usize, b: u8) -> (r: usize)
    requires
        from <= to <= s@.len(),
    ensures
        from <= r <= to,
        r - from == find_byte(s@.subrange(from as int, to as int), b),
        r < to ==> s@[r as int] == b,
        forall|j: int| from <= j < r ==> s@[j] != b,
{
    let mut i: usize = from;
    while i < to
        invariant
            from <= i <= to <= s@.len(),
            forall|j: int| from <= j < i ==> s@[j] != b,
        decreases to - i,
    {
        if s[i] == b {
            proof {
                lemma_find_byte_from_scan(s@.subrange(from as int, to as int), b, i - from);
            }
            return i;
        }
        i += 1;
    }
    proof {
        lemma_find_byte_from_scan(s@.subrange(from as int, to as int), b, i - from);
    }
    i
}

/// Whitespace for header-value trimming: space, tab, and line control.
pub open spec fn is_ws(b: u8) -> bool {
    b == 32 || b == 9 || b == 13 || b == 10
}

/// `s` without its leading whitespace.
pub open spec fn trim_start(s: Seq<u8>) -> Seq<u8>
    decreases s.len(),
{
    if s.len() > 0 && is_ws(s[0]) {
        trim_start(s.skip(1))
    } else {
        s
    }
}

/// `s` without its trailing whitespace.
pub open spec fn trim_end(s: Seq<u8>) -> Seq<u8>
    decreases s.len(),
{
    if s.len() > 0 && is_ws(s[s.len() - 1]) {
        trim_end(s.take(s.len() - 1))
    } else {
        s
    }
}

/// `s` without surrounding whitespace.
pub open spec fn trim(s: Seq<u8>) -> Seq<u8> {
    trim_end(trim_start(s))
}

pub proof fn lemma_trim_start_scan(s: Seq<u8>, i: int)
    requires
        0 <= i <= s.len(),
        forall|j: int| 0 <= j < i ==> is_ws(s[j]),
        i < s.len() ==> !is_ws(s[i]),
    ensures
        trim_start(s) == s.skip(i),
    decreases i,
{
    if i == 0 {
        assert(s.skip(0) =~= s);
    } else {
        assert(is_ws(s[0]));
        assert(forall|j: int| 0 <= j < i - 1 ==> s.skip(1)[j] == s[j + 1]);
        lemma_trim_start_scan(s.skip(1), i - 1);
        assert(s.skip(1).skip(i - 1) =~= s.skip(i));
    }
}

pub proof fn lemma_trim_end_scan(s: Seq<u8>, k: int)
    requires
        0 <= k <= s.len(),
        forall|j: int| k <= j < s.len() ==> is_ws(s[j]),
        k > 0 ==> !is_ws(s[k - 1]),
    ensures
        trim_end(s) == s.take(k),
    decreases s.len(),
{
    if k == s.len() {
        assert(s.take(k) =~= s);
    } else {
        assert(is_ws(s[s.len() - 1]));
        let t = s.take(s.len() - 1);
        assert(forall|j: int| k <= j < t.len() ==> t[j] == s[j]);
        lemma_trim_end_scan(t, k);
        assert(t.take(k) =~= s.take(k));
    }
}

/// Bounds `(lo, hi)` of `s[from..to]` with surrounding whitespace removed:
/// `s[lo..hi]` is `trim` of `s[from..to]`.
pub fn trim_range(s: &[u8], from: usize, to: usize) -> (r: (usize, usize))
    requires
        from <= to <= s@.len(),
    ensures
        from <= r.0 <= r.1 <= to,
        s@.subrange(r.0 as int, r.1 as int) == trim(s@.subrange(from as int, to as int)),
{
    let ghost sub = s@.subrange(from as int, to as int);
    let mut lo: usize = from;
    while lo < to && is_ws_exec(s[lo])
        invariant
            from <= lo <= to <= s@.len(),
            forall|j: int| from <= j < lo ==> is_ws(s@[j]),
        decreases to - lo,
    {
        lo += 1;
    }
    let mut hi: usize = to;
    while hi > lo && is_ws_exec(s[hi - 1])
        invariant
            lo <= hi <= to <= s@.len(),
            forall|j: int| hi <= j < to ==> is_ws(s@[j]),
        decreases hi,
    {
        hi -= 1;
    }
    proof {
        assert(forall|j: int| 0 <= j < sub.len() ==> sub[j] == s@[from + j]);
        lemma_trim_start_scan(sub, lo - from);
        let mid = sub.skip(lo - from);
        assert(forall|j: int| 0 <= j < mid.len() ==> mid[j] == s@[lo + j]);
        lemma_trim_end_scan(mid, hi - lo);
        assert(mid.take(hi - lo) =~= s@.subrange(lo as int, hi as int));
    }
    (lo, hi)
}

/// Executable form of `is_ws`.
pub fn is_ws_exec(b: u8) -> (r: bool)
    ensures
        r == is_ws(b),
{
    b == 32 || b == 9 || b == 13 || b == 10
}

/// ASCII lowercase of one byte.
pub open spec fn lower_byte(b: u8) -> u8 {
    if 65 <= b <= 90 {
        (b + 32) as u8
    } else {
        b
    }
}

/// ASCII lowercase of a byte sequence.
pub open spec fn lower(s: Seq<u8>) -> Seq<u8> {
    s.map_values(|b: u8| lower_byte(b))
}

/// True when `s[from..to]` equals `name`, comparing ASCII case-insensitively.
pub fn eq_ci_range(s: &[u8], from: usize, to: usize, name: &[u8]) -> (r: bool)
    requires
        from <= to <= s@.len(),
    ensures
        r == (lower(s@.subrange(from as int, to as int)) == lower(name@)),
{
    let ghost sub = s@.subrange(from as int, to as int);
    if to - from != name.len() {
        assert(lower(sub).len() != lower(name@).len());
        return false;
    }
    let mut i: usize = 0;
    while i < name.len()
        invariant
            i <= name@.len(),
            from + name@.len() == to <= s@.len(),
            forall|j: int| 0 <= j < i ==> lower_byte(s@[from + j]) == lower_byte(name@[j]),
        decreases name@.len() - i,
    {
        let a = s[from + i];
        let b = name[i];
        let la = if 65 <= a && a <= 90 { a + 32 } else { a };
        let lb = if 65 <= b && b <= 90 { b + 32 } else { b };
        if la != lb {
            proof {
                let subx = s@.subrange(from as int, to as int);
                assert(subx[i as int] == s@[from + i]);
                assert(lower(subx)[i as int] == lower_byte(subx[i as int]));
                assert(lower(name@)[i as int] == lower_byte(name@[i as int]));
                assert(lower(subx) != lower(name@));
            }
            return false;
        }
        i += 1;
    }
    proof {
        assert forall|j: int| 0 <= j < name@.len() implies lower(sub)[j] == lower(name@)[j] by {
            assert(sub[j] == s@[from + j]);
        }
        assert(lower(sub) =~= lower(name@));
    }
    true
}

/// Appends every byte of `src` to `dst`.
pub fn push_all(dst: &mut Vec<u8>, src: &[u8])
    ensures
        final(dst)@ == old(dst)@ + src@,
{
    let mut i: usize = 0;
    while i < src.len()
        invariant
            i <= src@.len(),
            dst@ == old(dst)@ + src@.take(i as int),
        decreases src@.len() - i,
    {
        dst.push(src[i]);
        proof {
            assert(old(dst)@ + src@.take(i as int) + seq![src@[i as int]] =~= old(dst)@ + src@.take(
                i + 1,
            ));
        }
        i += 1;
    }
    proof {
        assert(src@.take(src@.len() as int) =~= src@);
    }
}

/// True of the two byte sequences holding the same bytes.
pub fn bytes_eq(a: &[u8], b: &[u8]) -> (r: bool)
    ensures
        r == (a@ == b@),
{
    if a.len() != b.len() {
        assert(a@ != b@);
        return false;
    }
    let mut i: usize = 0;
    while i < a.len()
        invariant
            i <= a@.len(),
            a@.len() == b@.len(),
            forall|j: int| 0 <= j < i ==> a@[j] == b@[j],
        decreases a@.len() - i,
    {
        if a[i] != b[i] {
            assert(a@ != b@);
            return false;
        }
        i += 1;
    }
    proof {
        assert(a@ =~= b@);
    }
    true
}

/// The segments of `s` between occurrences of `sep`; always non-empty,
/// with one more segment than there are separators.
pub open spec fn split_bytes(s: Seq<u8>, sep: u8) -> Seq<Seq<u8>>
    decreases s.len(),
{
    let i = find_byte(s, sep);
    if 0 <= i < s.len() {
        seq![s.take(i)] + split_bytes(s.skip(i + 1), sep)
    } else {
        seq![s]
    }
}

/// The segments joined back with `sep` between them.
pub open spec fn join_bytes(parts: Seq<Seq<u8>>, sep: u8) -> Seq<u8>
    decreases parts.len(),
{
    if parts.len() <= 1 {
        if parts.len() == 0 {
            Seq::empty()
        } else {
            parts[0]
        }
    } else {
        parts[0] + seq![sep] + join_bytes(parts.skip(1), sep)
    }
}

/// Joining the split of `s` gives back exactly `s`.
pub proof fn lemma_join_split(s: Seq<u8>, sep: u8)
    ensures
        join_bytes(split_bytes(s, sep), sep) == s,
    decreases s.len(),
{
    let i = find_byte(s, sep);
    lemma_find_byte_bounds(s, sep);
    if i < s.len() {
        lemma_join_split(s.skip(i + 1), sep);
        let rest = split_bytes(s.skip(i + 1), sep);
        assert(rest.len() >= 1);
        let parts = seq![s.take(i)] + rest;
        assert(parts.len() >= 2);
        assert(parts[0] == s.take(i));
        assert(parts.skip(1) =~= rest);
        assert(s.take(i) + seq![sep] + s.skip(i + 1) =~= s);
    }
}

/// The segments of `s` between occurrences of `sep`, as fresh vectors.
pub fn split_vec(s: &[u8], sep: u8) -> (parts: Vec<Vec<u8>>)
    ensures
        parts@.map_values(|v: Vec<u8>| v@) == split_bytes(s@, sep),
{
    let mut parts: Vec<Vec<u8>> = Vec::new();
    let mut pos: usize = 0;
    let mut done = false;
    proof {
        assert(s@.skip(0) =~= s@);
        assert(parts@.map_values(|v: Vec<u8>| v@) =~= Seq::<Seq<u8>>::empty());
        assert(Seq::<Seq<u8>>::empty() + split_bytes(s@, sep) =~= split_bytes(s@, sep));
    }
    while !done
        invariant
            pos <= s@.len(),
            !done ==> split_bytes(s@, sep) == parts@.map_values(|v: Vec<u8>| v@) + split_bytes(
                s@.skip(pos as int),
                sep,
            ),
            done ==> split_bytes(s@, sep) == parts@.map_values(|v: Vec<u8>| v@),
        decreases s@.len() - pos + (if done { 0int } else { 1int }),
    {
        let n = scan_range(s, pos, s.len(), sep);
        let piece = copy_range(s, pos, n);
        proof {
            assert(s@.skip(pos as int) =~= s@.subrange(pos as int, s@.len() as int));
            assert(find_byte(s@.skip(pos as int), sep) == n - pos);
        }
        let ghost old_parts = parts@;
        parts.push(piece);
        proof {
            assert(parts@.map_values(|v: Vec<u8>| v@) =~= old_parts.map_values(
                |v: Vec<u8>| v@,
            ).push(piece@));
            assert(s@.skip(pos as int).take(n - pos) =~= s@.subrange(pos as int, n as int));
        }
        if n < s.len() {
            proof {
                assert(s@.skip(pos as int).skip(n - pos + 1) =~= s@.skip(n + 1));
                assert(split_bytes(s@.skip(pos as int), sep) == seq![
                    s@.subrange(pos as int, n as int),
                ] + split_bytes(s@.skip(n + 1), sep));
                assert(old_parts.map_values(|v: Vec<u8>| v@).push(piece@) + split_bytes(
                    s@.skip(n + 1),
                    sep,
                ) =~= old_parts.map_values(|v: Vec<u8>| v@) + split_bytes(
                    s@.skip(pos as int),
                    sep,
                ));
            }
            pos = n + 1;
        } else {
            proof {
                assert(split_bytes(s@.skip(pos as int), sep) == seq![
                    s@.subrange(pos as int, n as int),
                ]);
                assert(old_parts.map_values(|v: Vec<u8>| v@).push(piece@) =~= old_parts.map_values(
                    |v: Vec<u8>| v@,
                ) + split_bytes(s@.skip(pos as int), sep));
            }
            done = true;
        }
    }
    parts
}

/// A fresh vector holding `s[from..to]`.
pub fn copy_range(s: &[u8], from: usize, to: usize) -> (r: Vec<u8>)
    requires
        from <= to <= s@.len(),
    ensures
        r@ == s@.subrange(from as int, to as int),
{
    let mut r: Vec<u8> = Vec::new();
    let mut i: usize = from;
    while i < to
        invariant
            from <= i <= to <= s@.len(),
            r@ == s@.subrange(from as int, i as int),
        decreases to - i,
    {
        r.push(s[i]);
        proof {
            assert(r@ =~= s@.subrange(from as int, i + 1));
        }
        i += 1;
    }
    r
}

/// Decides whether `data` is valid UTF-8 text, scalar by scalar, against
/// the encoding's definition.
pub fn check_utf8(data: &[u8]) -> (r: bool)
    ensures
        r == vstd::utf8::valid_utf8(data@),
{
    let mut i: usize = 0;
    proof {
        assert(data@.skip(0) =~= data@);
    }
    while i < data.len()
        invariant
            i <= data@.len(),
            vstd::utf8::valid_utf8(data@) == vstd::utf8::valid_utf8(data@.skip(i as int)),
        decreases data@.len() - i,
    {
        let ghost rest = data@.skip(i as int);
        proof {
            assert(rest.len() == data@.len() - i);
            assert(rest[0] == data@[i as int]);
        }
        let b0 = data[i];
        let rem = data.len() - i;
        let width: usize;
        if b0 <= 0x7f {
            width = 1;
        } else if 0xc0 <= b0 && b0 <= 0xdf {
            if rem < 2 {
                proof {
                    assert(!vstd::utf8::valid_leading_and_continuation_bytes_first_codepoint(rest));
                }
                return false;
            }
            let b1 = data[i + 1];
            proof {
                assert(rest[1] == data@[i + 1]);
            }
            if !(0x80 <= b1 && b1 <= 0xbf) {
                proof {
                    assert(!vstd::utf8::valid_leading_and_continuation_bytes_first_codepoint(rest));
                }
                return false;
            }
            let cp: u32 = (((b0 & 0x1f) as u32) << 6) | ((b1 & 0x3f) as u32);
            proof {
                assert(cp == vstd::utf8::codepoint_width_2(b0, b1));
            }
            if cp < 0x80 {
                return false;
            }
            if 0xd800 <= cp && cp <= 0xdfff {
                return false;
            }
            width = 2;
        } else if 0xe0 <= b0 && b0 <= 0xef {
            if rem < 3 {
                proof {
                    assert(!vstd::utf8::valid_leading_and_continuation_bytes_first_codepoint(rest));
                }
                return false;
            }
            let b1 = data[i + 1];
            let b2 = data[i + 2];
            proof {
                assert(rest[1] == data@[i + 1]);
                assert(rest[2] == data@[i + 2]);
            }
            if !(0x80 <= b1 && b1 <= 0xbf) || !(0x80 <= b2 && b2 <= 0xbf) {
                proof {
                    assert(!vstd::utf8::valid_leading_and_continuation_bytes_first_codepoint(rest));
                }
                return false;
            }
            let cp: u32 = ((((b0 & 0x0f) as u32) << 12) | (((b1 & 0x3f) as u32) << 6)) | ((b2
                & 0x3f) as u32);
            proof {
                assert(cp == vstd::utf8::codepoint_width_3(b0, b1, b2));
            }
            if cp < 0x800 {
                return false;
            }
            if 0xd800 <= cp && cp <= 0xdfff {
                return false;
            }
            width = 3;
        } else if 0xf0 <= b0 && b0 <= 0xf7 {
            if rem < 4 {
                proof {
                    assert(!vstd::utf8::valid_leading_and_continuation_bytes_first_codepoint(rest));
                }
                return false;
            }
            let b1 = data[i + 1];
            let b2 = data[i + 2];
            let b3 = data[i + 3];
            proof {
                assert(rest[1] == data@[i + 1]);
                assert(rest[2] == data@[i + 2]);
                assert(rest[3] == data@[i + 3]);
            }
            if !(0x80 <= b1 && b1 <= 0xbf) || !(0x80 <= b2 && b2 <= 0xbf) || !(0x80 <= b3 && b3
                <= 0xbf) {
                proof {
                    assert(!vstd::utf8::valid_leading_and_continuation_bytes_first_codepoint(rest));
                }
                return false;
            }
            let cp: u32 = (((((b0 & 0x07) as u32) << 18) | (((b1 & 0x3f) as u32) << 12)) | (((b2
                & 0x3f) as u32) << 6)) | ((b3 & 0x3f) as u32);
            proof {
                assert(cp == vstd::utf8::codepoint_width_4(b0, b1, b2, b3));
            }
            if !(0x10000 <= cp && cp <= 0x10ffff) {
                return false;
            }
            if 0xd800 <= cp && cp <= 0xdfff {
                return false;
            }
            width = 4;
        } else {
            proof {
                assert(!vstd::utf8::valid_leading_and_continuation_bytes_first_codepoint(rest));
            }
            return false;
        }
        proof {
            assert(vstd::utf8::valid_first_scalar(rest));
            assert(vstd::utf8::length_of_first_scalar(rest) == width);
            assert(vstd::utf8::pop_first_scalar(rest) =~= data@.skip(i + width));
        }
        i += width;
    }
    proof {
        assert(data@.skip(data@.len() as int) =~= Seq::<u8>::empty());
    }
    true
}

} // verus!
