//! The transfer engine: drives the three record streams in lockstep,
//! enforces the identity invariant, rewrites headers with the UMI and
//! feeds the two writers.

use crate::errors::RunError;
use crate::record::{opt_view, views, RecordStream, RecordView};
use crate::scan::bytes_eq;
use crate::writer::{
    spec_delim, spec_edited_desc, spec_header, spec_record_bytes, write_to_file, OutputFile,
};
use vstd::prelude::*;

verus! {

/// The smaller of three stream lengths: how many steps the engine takes
/// when every identifier matches.
pub open spec fn min3(a: int, b: int, c: int) -> int {
    if a <= b {
        if a <= c {
            a
        } else {
            c
        }
    } else {
        if b <= c {
            b
        } else {
            c
        }
    }
}

/// Both mates agree with the index read at step `i`.
pub open spec fn ids_match_at(
    r1: Seq<RecordView>,
    r2: Seq<RecordView>,
    ru: Seq<RecordView>,
    i: int,
) -> bool {
    r1[i].id == ru[i].id && r2[i].id == ru[i].id
}

/// The first step at or after `i` whose identifiers disagree, or `n` when
/// every step below `n` matches.
pub open spec fn first_mismatch(
    r1: Seq<RecordView>,
    r2: Seq<RecordView>,
    ru: Seq<RecordView>,
    i: int,
    n: int,
) -> int
    decreases n - i,
{
    if i >= n {
        n
    } else if !ids_match_at(r1, r2, ru, i) {
        i
    } else {
        first_mismatch(r1, r2, ru, i + 1, n)
    }
}

/// What writer 1 receives over the first `k` steps: per step exactly one
/// serialized record, the mate's own description untouched, under the
/// header `id`, delimiter, UMI.
pub open spec fn out1_bytes(r1: Seq<RecordView>, ru: Seq<RecordView>, delim: Seq<u8>, k: int) -> Seq<
    u8,
>
    decreases k,
{
    if k <= 0 {
        Seq::empty()
    } else {
        out1_bytes(r1, ru, delim, k - 1) + spec_record_bytes(
            spec_header(r1[k - 1].id, delim, ru[k - 1].bases),
            r1[k - 1].desc,
            r1[k - 1].bases,
            r1[k - 1].qual,
        )
    }
}

/// What writer 2 receives over the first `k` steps: as for writer 1, but
/// with the optional mate-number edit applied to each description.
pub open spec fn out2_bytes(
    r2: Seq<RecordView>,
    ru: Seq<RecordView>,
    delim: Seq<u8>,
    edit_nr: Option<u8>,
    k: int,
) -> Seq<u8>
    decreases k,
{
    if k <= 0 {
        Seq::empty()
    } else {
        out2_bytes(r2, ru, delim, edit_nr, k - 1) + spec_record_bytes(
            spec_header(r2[k - 1].id, delim, ru[k - 1].bases),
            spec_edited_desc(r2[k - 1].desc, edit_nr),
            r2[k - 1].bases,
            r2[k - 1].qual,
        )
    }
}

/// Each input triple yields exactly one more record on each writer, and
/// its headers are the mates' identifiers joined to the UMI by the
/// delimiter: step `k`'s output is appended after step `k - 1`'s, nothing
/// else changes.
pub proof fn lemma_one_record_per_step(
    r1: Seq<RecordView>,
    r2: Seq<RecordView>,
    ru: Seq<RecordView>,
    delim: Seq<u8>,
    edit_nr: Option<u8>,
    k: int,
)
    requires
        k >= 0,
    ensures
        out1_bytes(r1, ru, delim, k + 1) == out1_bytes(r1, ru, delim, k) + spec_record_bytes(
            spec_header(r1[k].id, delim, ru[k].bases),
            r1[k].desc,
            r1[k].bases,
            r1[k].qual,
        ),
        out2_bytes(r2, ru, delim, edit_nr, k + 1) == out2_bytes(r2, ru, delim, edit_nr, k)
            + spec_record_bytes(
            spec_header(r2[k].id, delim, ru[k].bases),
            spec_edited_desc(r2[k].desc, edit_nr),
            r2[k].bases,
            r2[k].qual,
        ),
{
}

/// A run aborts at its first mismatched step: when every step before `k`
/// matches and step `k` does not, `k` is where the engine stops, so the
/// abort follows the output of steps `0 .. k` and nothing later.
pub proof fn lemma_mismatch_aborts(
    r1: Seq<RecordView>,
    r2: Seq<RecordView>,
    ru: Seq<RecordView>,
    k: int,
    n: int,
)
    requires
        0 <= k < n,
        forall|j: int| 0 <= j < k ==> ids_match_at(r1, r2, ru, j),
        !ids_match_at(r1, r2, ru, k),
    ensures
        first_mismatch(r1, r2, ru, 0, n) == k,
{
    lemma_first_mismatch_from(r1, r2, ru, 0, k, n);
}

proof fn lemma_first_mismatch_from(
    r1: Seq<RecordView>,
    r2: Seq<RecordView>,
    ru: Seq<RecordView>,
    i: int,
    k: int,
    n: int,
)
    requires
        0 <= i <= k < n,
        forall|j: int| i <= j < k ==> ids_match_at(r1, r2, ru, j),
        !ids_match_at(r1, r2, ru, k),
    ensures
        first_mismatch(r1, r2, ru, i, n) == k,
    decreases k - i,
{
    if i < k {
        lemma_first_mismatch_from(r1, r2, ru, i + 1, k, n);
    }
}

/// Whether the streams' shortest supply ends cleanly: some stream of the
/// limiting length ran out of records rather than into a read error. When
/// none did, the engine's next pull after the last full step surfaces
/// that error, as the original's lazy readers would.
pub open spec fn spec_clean_limit(r1: RecordStream, r2: RecordStream, ru: RecordStream) -> bool {
    let n = min3(
        r1.records@.len() as int,
        r2.records@.len() as int,
        ru.records@.len() as int,
    );
    (r1.records@.len() == n && r1.clean) || (r2.records@.len() == n && r2.clean) || (
    ru.records@.len() == n && ru.clean)
}

/// The stream whose read error a run that ended in `MalformedInput`
/// surfaces, in the order the engine pulls them: `1` for mate 1, `2` for
/// mate 2, `3` for the index read; `0` when the run was not limited by a
/// read error.
pub open spec fn spec_malformed_stream(r1: RecordStream, r2: RecordStream, ru: RecordStream) -> int {
    let n = min3(
        r1.records@.len() as int,
        r2.records@.len() as int,
        ru.records@.len() as int,
    );
    if spec_clean_limit(r1, r2, ru) {
        0
    } else if r1.records@.len() == n {
        1
    } else if r2.records@.len() == n {
        2
    } else {
        3
    }
}

/// Names the input whose read error ended a run, for the caller's report.
pub fn malformed_stream(r1: &RecordStream, r2: &RecordStream, ru: &RecordStream) -> (r: u8)
    ensures
        r as int == spec_malformed_stream(*r1, *r2, *ru),
{
    let mut n: usize = r1.records.len();
    if r2.records.len() < n {
        n = r2.records.len();
    }
    if ru.records.len() < n {
        n = ru.records.len();
    }
    let clean_limit = (r1.records.len() == n && r1.clean) || (r2.records.len() == n && r2.clean)
        || (ru.records.len() == n && ru.clean);
    if clean_limit {
        0
    } else if r1.records.len() == n {
        1
    } else if r2.records.len() == n {
        2
    } else {
        3
    }
}

/// One transfer run over three record streams. Per step the engine checks
/// each mate's identifier against the index read's, rewrites the mate's
/// header with the index read's base string as UMI, and hands the record
/// to that mate's writer. The first mismatch aborts the whole run with
/// `ReadIDMismatch`, after the earlier steps' output and no more; when
/// the steps run out because every limiting stream ended in a read error,
/// the run aborts with `MalformedInput`, after all full steps' output.
/// The writers come back in every outcome, holding exactly what was
/// written.
#[verifier::loop_isolation(false)]
pub fn run(
    r1: &RecordStream,
    r2: &RecordStream,
    ru: &RecordStream,
    out1: OutputFile,
    out2: OutputFile,
    umi_sep: &Option<Vec<u8>>,
    edit_nr: Option<u8>,
) -> (r: (Result<(), RunError>, OutputFile, OutputFile))
    requires
        edit_nr matches Some(dg) ==> dg <= 9,
        edit_nr is Some ==> forall|t: int|
            0 <= t < min3(
                r1.records@.len() as int,
                r2.records@.len() as int,
                ru.records@.len() as int,
            ) ==> ((#[trigger] r2.records@[t])@.desc matches Some(u) && u.len() >= 1),
    ensures
        ({
            let vs1 = views(r1.records@);
            let vs2 = views(r2.records@);
            let vsu = views(ru.records@);
            let n = min3(vs1.len() as int, vs2.len() as int, vsu.len() as int);
            let delim = spec_delim(opt_view(*umi_sep));
            let k = first_mismatch(vs1, vs2, vsu, 0, n);
            &&& r.1.is_compressed() == out1.is_compressed()
            &&& r.2.is_compressed() == out2.is_compressed()
            &&& (r.0 is Ok <==> k == n && spec_clean_limit(*r1, *r2, *ru))
            &&& (r.0 matches Err(e) ==> e == (if k < n {
                RunError::ReadIDMismatch
            } else {
                RunError::MalformedInput
            }))
            &&& (k == n ==> r.1.buf() == out1.buf() + out1_bytes(vs1, vsu, delim, n)
                && r.2.buf() == out2.buf() + out2_bytes(vs2, vsu, delim, edit_nr, n))
            &&& (k < n ==> r.2.buf() == out2.buf() + out2_bytes(vs2, vsu, delim, edit_nr, k)
                && r.1.buf() == out1.buf() + out1_bytes(
                vs1,
                vsu,
                delim,
                if vs1[k].id == vsu[k].id {
                    k + 1
                } else {
                    k
                },
            ))
        }),
{
    let ghost vs1 = views(r1.records@);
    let ghost vs2 = views(r2.records@);
    let ghost vsu = views(ru.records@);
    let ghost delim = spec_delim(opt_view(*umi_sep));
    let mut n: usize = r1.records.len();
    if r2.records.len() < n {
        n = r2.records.len();
    }
    if ru.records.len() < n {
        n = ru.records.len();
    }
    assert(n as int == min3(vs1.len() as int, vs2.len() as int, vsu.len() as int));
    let mut w1 = out1;
    let mut w2 = out2;
    let mut i: usize = 0;
    while i < n
        invariant
            i <= n,
            forall|j: int| 0 <= j < i ==> ids_match_at(vs1, vs2, vsu, j),
            first_mismatch(vs1, vs2, vsu, 0, n as int) == first_mismatch(
                vs1,
                vs2,
                vsu,
                i as int,
                n as int,
            ),
            w1.buf() == out1.buf() + out1_bytes(vs1, vsu, delim, i as int),
            w2.buf() == out2.buf() + out2_bytes(vs2, vsu, delim, edit_nr, i as int),
            w1.is_compressed() == out1.is_compressed(),
            w2.is_compressed() == out2.is_compressed(),
        decreases n - i,
    {
        assert(vs1[i as int] == r1.records@[i as int]@);
        assert(vs2[i as int] == r2.records@[i as int]@);
        assert(vsu[i as int] == ru.records@[i as int]@);
        if !bytes_eq(&r1.records[i].id, &ru.records[i].id) {
            assert(!ids_match_at(vs1, vs2, vsu, i as int));
            return (Err(RunError::ReadIDMismatch), w1, w2);
        }
        w1 = write_to_file(&r1.records[i], w1, &ru.records[i].bases, umi_sep, None);
        if !bytes_eq(&r2.records[i].id, &ru.records[i].id) {
            assert(!ids_match_at(vs1, vs2, vsu, i as int));
            return (Err(RunError::ReadIDMismatch), w1, w2);
        }
        w2 = write_to_file(&r2.records[i], w2, &ru.records[i].bases, umi_sep, edit_nr);
        assert(ids_match_at(vs1, vs2, vsu, i as int));
        i += 1;
    }
    let clean_limit = (r1.records.len() == n && r1.clean) || (r2.records.len() == n && r2.clean)
        || (ru.records.len() == n && ru.clean);
    if clean_limit {
        (Ok(()), w1, w2)
    } else {
        (Err(RunError::MalformedInput), w1, w2)
    }
}

} // verus!
