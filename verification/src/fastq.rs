//! The four-line FASTQ text layout, as a grammar on bytes: `@id[ desc]`,
//! base string, a lone `+`, quality string of the same length as the
//! bases, each line ending in a newline (the stream's last line may end
//! at the end of input instead).

use crate::record::{views, RecordStream, RecordView, SequenceRecord};
use crate::scan::{copy_range, find_byte_in, find_byte_to};
use vstd::prelude::*;

verus! {

/// One record parsed at position `i` of the stream: the record and the
/// position where the next one starts. `None` when the bytes at `i` do
/// not form a well-formed record.
pub open spec fn spec_parse_record(s: Seq<u8>, i: int) -> Option<(RecordView, int)> {
    let n = s.len() as int;
    let e1 = find_byte_to(s, i, n, 10);
    if !(i < e1 && s[i] == 64) {
        None
    } else if e1 >= n {
        None
    } else {
        let i2 = e1 + 1;
        let e2 = find_byte_to(s, i2, n, 10);
        if e2 >= n {
            None
        } else {
            let i3 = e2 + 1;
            let e3 = find_byte_to(s, i3, n, 10);
            if !(e3 == i3 + 1 && s[i3] == 43) {
                None
            } else if e3 >= n {
                None
            } else {
                let i4 = e3 + 1;
                let e4 = find_byte_to(s, i4, n, 10);
                if e4 - i4 != e2 - i2 {
                    None
                } else {
                    let sp = find_byte_to(s, i + 1, e1, 32);
                    let rec = RecordView {
                        id: s.subrange(i + 1, sp),
                        desc: if sp < e1 {
                            Some(s.subrange(sp + 1, e1))
                        } else {
                            None
                        },
                        bases: s.subrange(i2, e2),
                        qual: s.subrange(i4, e4),
                    };
                    Some((rec, if e4 < n {
                        e4 + 1
                    } else {
                        n
                    }))
                }
            }
        }
    }
}

/// The well-formed records from position `i` up to the first malformed
/// one (or the end of the stream): what a lazy reader yields before it
/// stops or errs.
pub open spec fn spec_parse_prefix(s: Seq<u8>, i: int) -> Seq<RecordView>
    decreases s.len() - i,
{
    if i >= s.len() {
        Seq::empty()
    } else {
        match spec_parse_record(s, i) {
            None => Seq::empty(),
            Some(p) => {
                if p.1 <= i || p.1 > s.len() {
                    Seq::empty()
                } else {
                    seq![p.0] + spec_parse_prefix(s, p.1)
                }
            },
        }
    }
}

/// Whether the stream from position `i` is records to the very end — when
/// it is not, a lazy reader errs right after the records of
/// `spec_parse_prefix`.
pub open spec fn spec_parse_clean(s: Seq<u8>, i: int) -> bool
    decreases s.len() - i,
{
    if i >= s.len() {
        true
    } else {
        match spec_parse_record(s, i) {
            None => false,
            Some(p) => {
                if p.1 <= i || p.1 > s.len() {
                    false
                } else {
                    spec_parse_clean(s, p.1)
                }
            },
        }
    }
}

/// Every record the parser yields carries one quality byte per base: the
/// structural invariant the record parser enforces.
pub proof fn lemma_parsed_records_wf(s: Seq<u8>, i: int)
    requires
        0 <= i,
    ensures
        forall|j: int|
            0 <= j < spec_parse_prefix(s, i).len() ==> (#[trigger] spec_parse_prefix(s, i)[j]).wf(),
    decreases s.len() - i,
{
    if i >= s.len() {
    } else if spec_parse_record(s, i) is None {
    } else if spec_parse_record(s, i).unwrap().1 <= i || spec_parse_record(s, i).unwrap().1
        > s.len() {
    } else {
        let p = spec_parse_record(s, i).unwrap();
        lemma_parsed_records_wf(s, p.1);
        let n = s.len() as int;
        let e1 = find_byte_to(s, i, n, 10);
        crate::scan::lemma_find_byte_bounds(s, i, n, 10);
        let i2 = e1 + 1;
        let e2 = find_byte_to(s, i2, n, 10);
        crate::scan::lemma_find_byte_bounds(s, i2, n, 10);
        let i3 = e2 + 1;
        let e3 = find_byte_to(s, i3, n, 10);
        crate::scan::lemma_find_byte_bounds(s, i3, n, 10);
        let i4 = e3 + 1;
        let e4 = find_byte_to(s, i4, n, 10);
        crate::scan::lemma_find_byte_bounds(s, i4, n, 10);
        assert(p.0.bases == s.subrange(i2, e2));
        assert(p.0.qual == s.subrange(i4, e4));
        assert(p.0.wf());
        let rest = spec_parse_prefix(s, p.1);
        assert forall|j: int| 0 <= j < spec_parse_prefix(s, i).len() implies (
        #[trigger] spec_parse_prefix(s, i)[j]).wf() by {
            if j > 0 {
                assert(spec_parse_prefix(s, i)[j] == rest[j - 1]);
            }
        }
    }
}

fn parse_record(data: &Vec<u8>, i: usize) -> (r: Option<(SequenceRecord, usize)>)
    requires
        i < data.len(),
    ensures
        (r matches Some(p) ==> spec_parse_record(data@, i as int) == Some((p.0@, p.1 as int))
            && i < p.1 <= data.len()),
        r is None ==> spec_parse_record(data@, i as int) is None,
{
    let n = data.len();
    let e1 = find_byte_in(data, i, n, 10);
    if !(i < e1 && data[i] == 64) {
        return None;
    }
    if e1 >= n {
        return None;
    }
    let i2 = e1 + 1;
    let e2 = find_byte_in(data, i2, n, 10);
    if e2 >= n {
        return None;
    }
    let i3 = e2 + 1;
    let e3 = find_byte_in(data, i3, n, 10);
    if !(i3 < n && e3 == i3 + 1 && data[i3] == 43) {
        return None;
    }
    if e3 >= n {
        return None;
    }
    let i4 = e3 + 1;
    let e4 = find_byte_in(data, i4, n, 10);
    if e4 - i4 != e2 - i2 {
        return None;
    }
    let sp = find_byte_in(data, i + 1, e1, 32);
    let id = copy_range(data, i + 1, sp);
    let desc = if sp < e1 {
        Some(copy_range(data, sp + 1, e1))
    } else {
        None
    };
    let bases = copy_range(data, i2, e2);
    let qual = copy_range(data, i4, e4);
    let next = if e4 < n {
        e4 + 1
    } else {
        n
    };
    Some((SequenceRecord { id, desc, bases, qual }, next))
}

/// Parses a plain-text stream the way the lazy reader consumes it: the
/// well-formed records up to the first malformed one, and whether the
/// stream ended cleanly there. A stream that is records to the very end
/// (the empty stream among them) comes back clean; one with a malformed
/// record comes back unclean, holding exactly the records before it.
pub fn parse_fastq(data: &Vec<u8>) -> (r: RecordStream)
    ensures
        views(r.records@) == spec_parse_prefix(data@, 0),
        r.clean == spec_parse_clean(data@, 0),
        forall|j: int| 0 <= j < r.records@.len() ==> (#[trigger] r.records@[j])@.wf(),
{
    let mut out: Vec<SequenceRecord> = Vec::new();
    let mut i: usize = 0;
    let mut clean = true;
    proof {
        assert(views(out@) + spec_parse_prefix(data@, 0) =~= spec_parse_prefix(data@, 0));
    }
    while i < data.len() && clean
        invariant
            i <= data.len(),
            clean ==> spec_parse_prefix(data@, 0) == views(out@) + spec_parse_prefix(
                data@,
                i as int,
            ),
            clean ==> spec_parse_clean(data@, 0) == spec_parse_clean(data@, i as int),
            !clean ==> views(out@) == spec_parse_prefix(data@, 0),
            !clean ==> !spec_parse_clean(data@, 0),
        decreases data.len() - i, (if clean {
            1int
        } else {
            0int
        }),
    {
        match parse_record(data, i) {
            Some(p) => {
                let (rec, j) = p;
                let ghost out0 = out@;
                out.push(rec);
                proof {
                    assert(views(out@) =~= views(out0) + seq![rec@]);
                    assert(spec_parse_prefix(data@, i as int) == seq![rec@] + spec_parse_prefix(
                        data@,
                        j as int,
                    ));
                    assert(views(out0) + (seq![rec@] + spec_parse_prefix(data@, j as int)) =~= views(
                        out@,
                    ) + spec_parse_prefix(data@, j as int));
                }
                i = j;
            },
            None => {
                proof {
                    assert(spec_parse_prefix(data@, i as int) =~= Seq::<RecordView>::empty());
                    assert(views(out@) + spec_parse_prefix(data@, i as int) =~= views(out@));
                }
                clean = false;
            },
        }
    }
    proof {
        if clean {
            assert(spec_parse_prefix(data@, i as int) =~= Seq::<RecordView>::empty());
            assert(views(out@) + spec_parse_prefix(data@, i as int) =~= views(out@));
        }
        lemma_parsed_records_wf(data@, 0);
        assert forall|j: int| 0 <= j < out@.len() implies (#[trigger] out@[j])@.wf() by {
            assert(out@[j]@ == views(out@)[j]);
        }
    }
    RecordStream { records: out, clean }
}

} // verus!
