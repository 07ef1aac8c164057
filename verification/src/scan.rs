//! Byte-string scanning and copying helpers shared by the path rules and
//! the FASTQ parser.

use vstd::prelude::*;

verus! {

/// First index in `[i, end)` at which `s` holds `b`; `end` when there is none.
pub open spec fn find_byte_to(s: Seq<u8>, i: int, end: int, b: u8) -> int
    decreases end - i,
{
    if i < 0 || i >= end || end > s.len() {
        end
    } else if s[i] == b {
        i
    } else {
        find_byte_to(s, i + 1, end, b)
    }
}

/// First index at or after `i` (and below `end`) whose byte is not a dot;
/// `end` when the whole range is dots.
pub open spec fn skip_dots(s: Seq<u8>, i: int, end: int) -> int
    decreases end - i,
{
    if i < 0 || i >= end || end > s.len() {
        end
    } else if s[i] != 46 {
        i
    } else {
        skip_dots(s, i + 1, end)
    }
}

pub(crate) proof fn lemma_find_byte_bounds(s: Seq<u8>, i: int, end: int, b: u8)
    requires
        0 <= i <= end <= s.len(),
    ensures
        i <= find_byte_to(s, i, end, b) <= end,
        find_byte_to(s, i, end, b) < end ==> s[find_byte_to(s, i, end, b)] == b,
        forall|t: int| i <= t < find_byte_to(s, i, end, b) ==> s[t] != b,
    decreases end - i,
{
    if i < end && s[i] != b {
        lemma_find_byte_bounds(s, i + 1, end, b);
    }
}

pub(crate) proof fn lemma_skip_dots_bounds(s: Seq<u8>, i: int, end: int)
    requires
        0 <= i <= end <= s.len(),
    ensures
        i <= skip_dots(s, i, end) <= end,
        skip_dots(s, i, end) < end ==> s[skip_dots(s, i, end)] != 46,
        forall|t: int| i <= t < skip_dots(s, i, end) ==> s[t] == 46,
    decreases end - i,
{
    if i < end && s[i] == 46 {
        lemma_skip_dots_bounds(s, i + 1, end);
    }
}

pub(crate) fn find_byte_in(v: &Vec<u8>, from: usize, end: usize, b: u8) -> (r: usize)
    requires
        from <= end,
        end <= v.len(),
    ensures
        r as int == find_byte_to(v@, from as int, end as int, b),
        from <= r <= end,
        r < end ==> v@[r as int] == b,
        forall|t: int| from <= t < r ==> v@[t] != b,
{
    let mut i: usize = from;
    while i < end && v[i] != b
        invariant
            from <= i <= end,
            end <= v.len(),
            find_byte_to(v@, from as int, end as int, b) == find_byte_to(v@, i as int, end as int, b),
            forall|t: int| from <= t < i ==> v@[t] != b,
        decreases end - i,
    {
        i += 1;
    }
    i
}

pub(crate) fn skip_dots_in(v: &Vec<u8>, from: usize) -> (r: usize)
    requires
        from <= v.len(),
    ensures
        r as int == skip_dots(v@, from as int, v@.len() as int),
        from <= r <= v.len(),
{
    let mut i: usize = from;
    while i < v.len() && v[i] == 46
        invariant
            from <= i <= v.len(),
            skip_dots(v@, from as int, v@.len() as int) == skip_dots(v@, i as int, v@.len() as int),
        decreases v.len() - i,
    {
        i += 1;
    }
    i
}

/// Appends `src[from..to]` to `dst`.
pub(crate) fn push_range(dst: &mut Vec<u8>, src: &Vec<u8>, from: usize, to: usize)
    requires
        from <= to,
        to <= src.len(),
    ensures
        final(dst)@ == old(dst)@ + src@.subrange(from as int, to as int),
{
    let mut i: usize = from;
    assert(dst@ =~= old(dst)@ + src@.subrange(from as int, from as int));
    while i < to
        invariant
            from <= i <= to,
            to <= src.len(),
            dst@ == old(dst)@ + src@.subrange(from as int, i as int),
        decreases to - i,
    {
        dst.push(src[i]);
        assert(dst@ =~= old(dst)@ + src@.subrange(from as int, i as int + 1));
        i += 1;
    }
}

/// A fresh copy of `src[from..to]`.
pub(crate) fn copy_range(src: &Vec<u8>, from: usize, to: usize) -> (r: Vec<u8>)
    requires
        from <= to,
        to <= src.len(),
    ensures
        r@ == src@.subrange(from as int, to as int),
{
    let mut out: Vec<u8> = Vec::new();
    push_range(&mut out, src, from, to);
    assert(out@ =~= src@.subrange(from as int, to as int));
    out
}

/// Byte-for-byte equality of two byte strings.
pub(crate) fn bytes_eq(a: &Vec<u8>, b: &Vec<u8>) -> (r: bool)
    ensures
        r == (a@ == b@),
{
    if a.len() != b.len() {
        assert(a@ != b@);
        return false;
    }
    let mut i: usize = 0;
    while i < a.len()
        invariant
            i <= a.len(),
            a.len() == b.len(),
            forall|t: int| 0 <= t < i ==> a@[t] == b@[t],
        decreases a.len() - i,
    {
        if a[i] != b[i] {
            return false;
        }
        i += 1;
    }
    assert(a@ =~= b@);
    true
}

} // verus!
