//! Output-path rules: extension rectification for compression intent,
//! default-name derivation, and the overwrite decision.
//!
//! A path is a byte string. Its final component is everything after the
//! last separator; its extension is what follows the last dot of that
//! component, provided the dot is not the component's leading byte.

use crate::errors::RunError;
use crate::scan::{copy_range, find_byte_in, find_byte_to, push_range, skip_dots, skip_dots_in};
use vstd::prelude::*;

verus! {

/// Separator bytes: `/`, and additionally `\` where `bslash` is set.
pub open spec fn is_sep(b: u8, bslash: bool) -> bool {
    b == 47 || (bslash && b == 92)
}

/// Start of the final path component of `p[..j]`: the index just past the
/// last separator below `j`, or `0` when there is none.
pub open spec fn comp_start(p: Seq<u8>, j: int, bslash: bool) -> int
    decreases j,
{
    if j <= 0 {
        0
    } else if is_sep(p[j - 1], bslash) {
        j
    } else {
        comp_start(p, j - 1, bslash)
    }
}

/// Largest index `d` with `lo < d < j` and `p[d] == '.'`, or `-1`.
pub open spec fn last_dot_above(p: Seq<u8>, j: int, lo: int) -> int
    decreases j,
{
    if j <= 0 || j <= lo + 1 {
        -1
    } else if p[j - 1] == 46 {
        j - 1
    } else {
        last_dot_above(p, j - 1, lo)
    }
}

/// Where the final component of `p` starts. Only `/` separates here, as in
/// the platform path rules the rectifier follows.
pub open spec fn spec_comp_start(p: Seq<u8>) -> int {
    comp_start(p, p.len() as int, false)
}

/// The dot that introduces `p`'s final extension, or `-1`.
pub open spec fn spec_ext_dot(p: Seq<u8>) -> int {
    last_dot_above(p, p.len() as int, spec_comp_start(p))
}

/// The final extension of `p`, if any.
pub open spec fn spec_extension(p: Seq<u8>) -> Option<Seq<u8>> {
    if spec_comp_start(p) == p.len() {
        None
    } else if spec_ext_dot(p) >= 0 {
        Some(p.subrange(spec_ext_dot(p) + 1, p.len() as int))
    } else {
        None
    }
}

/// Whether an extension's last two bytes read `gz`.
pub open spec fn ends_gz(e: Seq<u8>) -> bool {
    e.len() >= 2 && e[e.len() - 2] == 103 && e[e.len() - 1] == 122
}

/// The bytes `.gz`.
pub open spec fn gz_suffix() -> Seq<u8> {
    seq![46u8, 103u8, 122u8]
}

/// Extension rectification: with compression requested the path gains a
/// `.gz` suffix unless its extension already ends in `gz`; without it, one
/// trailing `gz` extension level is stripped. A path with no final
/// component is left alone.
pub open spec fn spec_rectify(p: Seq<u8>, compress: bool) -> Seq<u8> {
    let cs = spec_comp_start(p);
    if cs == p.len() {
        p
    } else {
        let d = spec_ext_dot(p);
        if d >= 0 {
            let e = p.subrange(d + 1, p.len() as int);
            if compress && !ends_gz(e) {
                p + gz_suffix()
            } else if !compress && ends_gz(e) {
                p.subrange(0, d)
            } else {
                p
            }
        } else {
            if compress {
                p + gz_suffix()
            } else {
                p
            }
        }
    }
}

/// The marker segment `_with_UMIs`.
pub open spec fn umi_marker() -> Seq<u8> {
    seq![95u8, 119u8, 105u8, 116u8, 104u8, 95u8, 85u8, 77u8, 73u8, 115u8]
}

/// Where the marker goes: the final component's first dot after its
/// leading dots, the one that introduces the component's (possibly
/// multi-segment) extension. `p.len()` when there is no such dot. Both
/// `/` and `\` separate components here.
pub open spec fn spec_marker_dot(p: Seq<u8>) -> int {
    let cs = comp_start(p, p.len() as int, true);
    let k = skip_dots(p, cs, p.len() as int);
    find_byte_to(p, k, p.len() as int, 46)
}

/// Default-name derivation: the marker goes immediately before the final
/// component's first dot that follows its leading dots, so hidden-file
/// dots and multi-segment extensions survive verbatim. A name with no
/// such dot is returned unchanged.
pub open spec fn spec_append_umi(p: Seq<u8>) -> Seq<u8> {
    let j = spec_marker_dot(p);
    if j < p.len() {
        p.subrange(0, j) + umi_marker() + p.subrange(j, p.len() as int)
    } else {
        p
    }
}

/// Default-name derivation inserts the marker and changes nothing else.
/// With `j` the marker point — the dot that begins the final component's
/// extension — every byte below `j` (all directory components, a hidden
/// component's leading dots, the stem) stays in place, the marker
/// occupies the next ten bytes, and the dot with the whole multi-segment
/// extension follows verbatim; a name with no well-formed extension is
/// left untouched.
pub proof fn lemma_append_umi_inserts_marker(p: Seq<u8>)
    ensures
        0 <= spec_marker_dot(p) <= p.len(),
        spec_marker_dot(p) == p.len() ==> spec_append_umi(p) == p,
        spec_marker_dot(p) < p.len() ==> p[spec_marker_dot(p)] == 46,
        spec_marker_dot(p) < p.len() ==> spec_append_umi(p).len() == p.len() + 10,
        spec_marker_dot(p) < p.len() ==> forall|t: int|
            #![auto]
            0 <= t < spec_marker_dot(p) ==> spec_append_umi(p)[t] == p[t],
        spec_marker_dot(p) < p.len() ==> spec_append_umi(p).subrange(
            spec_marker_dot(p),
            spec_marker_dot(p) + 10,
        ) == umi_marker(),
        spec_marker_dot(p) < p.len() ==> forall|t: int|
            #![auto]
            spec_marker_dot(p) <= t < p.len() ==> spec_append_umi(p)[t + 10] == p[t],
{
    let n = p.len() as int;
    let cs = comp_start(p, n, true);
    lemma_comp_start_bounds(p, n, true);
    let k = skip_dots(p, cs, n);
    crate::scan::lemma_skip_dots_bounds(p, cs, n);
    let j = find_byte_to(p, k, n, 46);
    crate::scan::lemma_find_byte_bounds(p, k, n, 46);
    if j < n {
        let r = spec_append_umi(p);
        assert(r.subrange(j, j + 10) =~= umi_marker());
    }
}

proof fn lemma_comp_start_bounds(p: Seq<u8>, j: int, bslash: bool)
    requires
        0 <= j <= p.len(),
    ensures
        0 <= comp_start(p, j, bslash) <= j,
    decreases j,
{
    if j > 0 && !is_sep(p[j - 1], bslash) {
        lemma_comp_start_bounds(p, j - 1, bslash);
    }
}

/// Two byte strings that agree below `j` have the same component start.
proof fn lemma_comp_start_agree(p: Seq<u8>, q: Seq<u8>, j: int, bslash: bool)
    requires
        j <= p.len(),
        j <= q.len(),
        forall|t: int| 0 <= t < j ==> p[t] == q[t],
    ensures
        comp_start(p, j, bslash) == comp_start(q, j, bslash),
    decreases j,
{
    if j > 0 && !is_sep(p[j - 1], bslash) {
        lemma_comp_start_agree(p, q, j - 1, bslash);
    }
}

/// There is no separator between the component start and `j2`, so any cut
/// between the two sees the same component start.
proof fn lemma_comp_start_mid(p: Seq<u8>, j1: int, j2: int, bslash: bool)
    requires
        j2 <= p.len(),
        comp_start(p, j2, bslash) <= j1 <= j2,
    ensures
        comp_start(p, j1, bslash) == comp_start(p, j2, bslash),
    decreases j2,
{
    if j1 < j2 {
        if j2 > 0 && !is_sep(p[j2 - 1], bslash) {
            lemma_comp_start_mid(p, j1, j2 - 1, bslash);
        }
    }
}

proof fn lemma_last_dot_bounds(p: Seq<u8>, j: int, lo: int)
    requires
        j <= p.len(),
    ensures
        last_dot_above(p, j, lo) == -1 || (lo < last_dot_above(p, j, lo) < j && p[last_dot_above(
            p,
            j,
            lo,
        )] == 46),
    decreases j,
{
    if j > 0 && j > lo + 1 && p[j - 1] != 46 {
        lemma_last_dot_bounds(p, j - 1, lo);
    }
}

/// Two byte strings that agree below `j` have the same final dot.
proof fn lemma_last_dot_agree(p: Seq<u8>, q: Seq<u8>, j: int, lo: int)
    requires
        j <= p.len(),
        j <= q.len(),
        forall|t: int| 0 <= t < j ==> p[t] == q[t],
    ensures
        last_dot_above(p, j, lo) == last_dot_above(q, j, lo),
    decreases j,
{
    if j > 0 && j > lo + 1 && p[j - 1] != 46 {
        lemma_last_dot_agree(p, q, j - 1, lo);
    }
}

/// Appending `.gz` to a path with a non-empty final component leaves the
/// component start alone and makes the appended dot the extension dot.
proof fn lemma_append_gz_shape(p: Seq<u8>)
    requires
        spec_comp_start(p) < p.len(),
    ensures
        spec_comp_start(p + gz_suffix()) == spec_comp_start(p),
        spec_ext_dot(p + gz_suffix()) == p.len(),
        ends_gz((p + gz_suffix()).subrange(p.len() as int + 1, p.len() as int + 3)),
{
    let q = p + gz_suffix();
    let n = p.len() as int;
    let cs = spec_comp_start(p);
    lemma_comp_start_bounds(p, n, false);
    assert(q[n] == 46 && q[n + 1] == 103 && q[n + 2] == 122);
    assert(comp_start(q, n + 3, false) == comp_start(q, n + 2, false));
    assert(comp_start(q, n + 2, false) == comp_start(q, n + 1, false));
    assert(comp_start(q, n + 1, false) == comp_start(q, n, false));
    lemma_comp_start_agree(q, p, n, false);
    assert(spec_comp_start(q) == cs);
    assert(last_dot_above(q, n + 3, cs) == last_dot_above(q, n + 2, cs));
    assert(last_dot_above(q, n + 2, cs) == last_dot_above(q, n + 1, cs));
    assert(last_dot_above(q, n + 1, cs) == n);
    let e = q.subrange(n + 1, n + 3);
    assert(e.len() == 2 && e[0] == 103 && e[1] == 122);
}

/// Stripping the final extension keeps the component start and exposes the
/// previous dot of the same component, if any.
proof fn lemma_strip_shape(p: Seq<u8>)
    requires
        spec_comp_start(p) < p.len(),
        spec_ext_dot(p) >= 0,
    ensures
        spec_comp_start(p.subrange(0, spec_ext_dot(p))) == spec_comp_start(p),
        spec_ext_dot(p.subrange(0, spec_ext_dot(p))) == last_dot_above(
            p,
            spec_ext_dot(p),
            spec_comp_start(p),
        ),
        last_dot_above(p, spec_ext_dot(p), spec_comp_start(p)) >= 0 ==> p.subrange(
            0,
            spec_ext_dot(p),
        ).subrange(
            last_dot_above(p, spec_ext_dot(p), spec_comp_start(p)) + 1,
            spec_ext_dot(p),
        ) == p.subrange(last_dot_above(p, spec_ext_dot(p), spec_comp_start(p)) + 1, spec_ext_dot(p)),
{
    let n = p.len() as int;
    let cs = spec_comp_start(p);
    let d = spec_ext_dot(p);
    let q = p.subrange(0, d);
    lemma_comp_start_bounds(p, n, false);
    lemma_last_dot_bounds(p, n, cs);
    lemma_comp_start_agree(q, p, d, false);
    lemma_comp_start_mid(p, d, n, false);
    lemma_last_dot_agree(q, p, d, cs);
    let d2 = last_dot_above(p, d, cs);
    if d2 >= 0 {
        lemma_last_dot_bounds(p, d, cs);
        assert(q.subrange(d2 + 1, d) =~= p.subrange(d2 + 1, d));
    }
}

/// A path whose final extension ends in `gz` and, once that level is
/// stripped, again shows an extension ending in `gz`.
pub open spec fn spec_double_gz(p: Seq<u8>) -> bool {
    let cs = spec_comp_start(p);
    let d = spec_ext_dot(p);
    cs < p.len() && d >= 0 && ends_gz(p.subrange(d + 1, p.len() as int)) && {
        let d2 = last_dot_above(p, d, cs);
        d2 >= 0 && ends_gz(p.subrange(d2 + 1, d))
    }
}

/// Rectification is idempotent: a second application with the same
/// compression flag changes nothing. Without compression this asks that
/// the path not hide a second `gz` level directly under the first.
pub proof fn lemma_rectify_idempotent(p: Seq<u8>, compress: bool)
    requires
        !compress ==> !spec_double_gz(p),
    ensures
        spec_rectify(spec_rectify(p, compress), compress) == spec_rectify(p, compress),
{
    let n = p.len() as int;
    let cs = spec_comp_start(p);
    lemma_comp_start_bounds(p, n, false);
    if cs < n {
        let d = spec_ext_dot(p);
        lemma_last_dot_bounds(p, n, cs);
        if d >= 0 {
            let e = p.subrange(d + 1, n);
            if compress && !ends_gz(e) {
                lemma_append_gz_shape(p);
            } else if !compress && ends_gz(e) {
                lemma_strip_shape(p);
                let q = p.subrange(0, d);
                let d2 = last_dot_above(p, d, cs);
                lemma_last_dot_bounds(p, d, cs);
                if d2 >= 0 {
                    assert(!ends_gz(p.subrange(d2 + 1, d)));
                }
            }
        } else {
            if compress {
                lemma_append_gz_shape(p);
            }
        }
    }
}

/// With compression requested the rectified path always carries a final
/// extension that ends in `gz`, provided the path has a final component
/// at all.
pub proof fn lemma_rectify_compressed_ends_gz(p: Seq<u8>)
    requires
        spec_comp_start(p) < p.len(),
    ensures
        spec_rectify(p, true).len() > 0,
        spec_extension(spec_rectify(p, true)) matches Some(e) && ends_gz(e),
{
    let n = p.len() as int;
    let cs = spec_comp_start(p);
    lemma_comp_start_bounds(p, n, false);
    let d = spec_ext_dot(p);
    lemma_last_dot_bounds(p, n, cs);
    if d >= 0 && ends_gz(p.subrange(d + 1, n)) {
    } else {
        lemma_append_gz_shape(p);
    }
}

/// Without compression the rectified path's final extension, if any, does
/// not end in `gz` — as long as the path does not stack one `gz` level
/// directly on another.
pub proof fn lemma_rectify_plain_not_gz(p: Seq<u8>)
    requires
        !spec_double_gz(p),
    ensures
        match spec_extension(spec_rectify(p, false)) {
            Some(e) => !ends_gz(e),
            None => true,
        },
{
    let n = p.len() as int;
    let cs = spec_comp_start(p);
    lemma_comp_start_bounds(p, n, false);
    if cs < n {
        let d = spec_ext_dot(p);
        lemma_last_dot_bounds(p, n, cs);
        if d >= 0 && ends_gz(p.subrange(d + 1, n)) {
            lemma_strip_shape(p);
            let d2 = last_dot_above(p, d, cs);
            lemma_last_dot_bounds(p, d, cs);
            if d2 >= 0 {
                assert(!ends_gz(p.subrange(d2 + 1, d)));
            }
        }
    }
}

pub(crate) fn find_comp_start(p: &Vec<u8>, bslash: bool) -> (cs: usize)
    ensures
        cs as int == comp_start(p@, p@.len() as int, bslash),
        cs <= p.len(),
{
    let mut j: usize = p.len();
    while j > 0 && p[j - 1] != 47 && !(bslash && p[j - 1] == 92)
        invariant
            j <= p.len(),
            comp_start(p@, p@.len() as int, bslash) == comp_start(p@, j as int, bslash),
        decreases j,
    {
        j -= 1;
    }
    j
}

pub(crate) fn find_ext_dot(p: &Vec<u8>, cs: usize) -> (r: Option<usize>)
    requires
        cs <= p.len(),
    ensures
        (r matches Some(d) ==> d as int == last_dot_above(p@, p@.len() as int, cs as int) && cs < d
            && d < p.len()),
        r is None ==> last_dot_above(p@, p@.len() as int, cs as int) == -1,
{
    let mut j: usize = p.len();
    while j > 0 && j - 1 > cs && p[j - 1] != 46
        invariant
            j <= p.len(),
            last_dot_above(p@, p@.len() as int, cs as int) == last_dot_above(p@, j as int, cs as int),
        decreases j,
    {
        j -= 1;
    }
    if j > 0 && j - 1 > cs {
        Some(j - 1)
    } else {
        None
    }
}

/// Rewrites `path` so that its extension matches the compression intent:
/// `.gz` is appended when compression is requested and absent, and one
/// trailing `gz` extension level is removed when compression is not
/// requested.
pub fn rectify_extension(path: Vec<u8>, compress: bool) -> (r: Vec<u8>)
    ensures
        r@ == spec_rectify(path@, compress),
{
    let ghost p0 = path@;
    let mut path = path;
    let cs = find_comp_start(&path, false);
    if cs == path.len() {
        return path;
    }
    let dot = find_ext_dot(&path, cs);
    match dot {
        Some(d) => {
            let has_gz = path.len() - (d + 1) >= 2 && path[path.len() - 2] == 103 && path[path.len()
                - 1] == 122;
            proof {
                let e = p0.subrange(d + 1, p0.len() as int);
                assert(has_gz == ends_gz(e));
            }
            if compress && !has_gz {
                path.push(46);
                path.push(103);
                path.push(122);
                assert(path@ =~= p0 + gz_suffix());
                path
            } else if !compress && has_gz {
                path.truncate(d);
                assert(path@ =~= p0.subrange(0, d as int));
                path
            } else {
                path
            }
        },
        None => {
            if compress {
                path.push(46);
                path.push(103);
                path.push(122);
                assert(path@ =~= p0 + gz_suffix());
                path
            } else {
                path
            }
        },
    }
}

fn push_marker(dst: &mut Vec<u8>)
    ensures
        final(dst)@ == old(dst)@ + umi_marker(),
{
    dst.push(95);
    dst.push(119);
    dst.push(105);
    dst.push(116);
    dst.push(104);
    dst.push(95);
    dst.push(85);
    dst.push(77);
    dst.push(73);
    dst.push(115);
    assert(dst@ =~= old(dst)@ + umi_marker());
}

/// Derives the default output name for an input path by inserting the
/// `_with_UMIs` marker immediately before the final component's extension.
pub fn append_umi_to_path(path: &Vec<u8>) -> (r: Vec<u8>)
    ensures
        r@ == spec_append_umi(path@),
{
    let cs = find_comp_start(path, true);
    let k = skip_dots_in(path, cs);
    let j = find_byte_in(path, k, path.len(), 46);
    if j < path.len() {
        let mut out = copy_range(path, 0, j);
        push_marker(&mut out);
        push_range(&mut out, path, j, path.len());
        assert(out@ =~= path@.subrange(0, j as int) + umi_marker() + path@.subrange(
            j as int,
            path@.len() as int,
        ));
        out
    } else {
        let out = copy_range(path, 0, path.len());
        assert(out@ =~= path@);
        out
    }
}

/// Whether an existing output path calls for the confirmation collaborator.
pub fn needs_confirmation(exists: bool, force: bool) -> (r: bool)
    ensures
        r == (exists && !force),
{
    exists && !force
}

/// Decides whether `path` may be written: an absent path or a set force
/// flag passes unconditionally; an existing path passes only with an
/// affirmative confirmation, and fails with `FileExists` otherwise. No
/// file system state changes here — `exists` and `confirmed` are what the
/// caller observed.
pub fn check_outputpath(path: Vec<u8>, force: bool, exists: bool, confirmed: bool) -> (r: Result<
    Vec<u8>,
    RunError,
>)
    ensures
        ((!exists) || force) ==> (r matches Ok(q) && q == path),
        (exists && !force && confirmed) ==> (r matches Ok(q) && q == path),
        (exists && !force && !confirmed) ==> (r matches Err(e) && e == RunError::FileExists(
            Some(path),
        )),
{
    if exists && !force {
        if confirmed {
            Ok(path)
        } else {
            Err(RunError::FileExists(Some(path)))
        }
    } else {
        Ok(path)
    }
}

} // verus!
