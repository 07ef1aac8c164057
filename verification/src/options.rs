//! The options a run is invoked with, and the output names they lead to.

use crate::paths::{append_umi_to_path, rectify_extension, spec_append_umi, spec_rectify};
use crate::scan::copy_range;
use vstd::prelude::*;

verus! {

/// Everything one transfer run needs to know: the three input paths, the
/// optional output prefix, the compression and overwrite intents, the
/// optional UMI delimiter and the optional mate-number edit digit.
pub struct Opt {
    pub r1_in: Vec<u8>,
    pub r2_in: Vec<u8>,
    pub ru_in: Vec<u8>,
    pub prefix: Option<Vec<u8>>,
    pub gzip: bool,
    pub force: bool,
    pub umi_sep: Option<Vec<u8>>,
    pub edit_nr: Option<u8>,
}

/// The base name for one mate's output: the given prefix with the mate
/// digit appended, or the default derivation from that mate's input name.
pub open spec fn spec_base_name(prefix: Option<Seq<u8>>, input: Seq<u8>, mate: u8) -> Seq<u8> {
    match prefix {
        Some(p) => p + seq![mate],
        None => spec_append_umi(input),
    }
}

fn base_name(prefix: &Option<Vec<u8>>, input: &Vec<u8>, mate: u8) -> (r: Vec<u8>)
    ensures
        r@ == spec_base_name(crate::record::opt_view(*prefix), input@, mate),
{
    match prefix {
        Some(p) => {
            let mut b = copy_range(p, 0, p.len());
            b.push(mate);
            assert(b@ =~= p@ + seq![mate]);
            b
        },
        None => append_umi_to_path(input),
    }
}

/// The two names a run writes to, mate 1 and mate 2: prefix plus mate
/// digit (or the derived default name), rectified for the compression
/// intent.
pub fn output_names(opt: &Opt) -> (r: (Vec<u8>, Vec<u8>))
    ensures
        r.0@ == spec_rectify(
            spec_base_name(crate::record::opt_view(opt.prefix), opt.r1_in@, 49),
            opt.gzip,
        ),
        r.1@ == spec_rectify(
            spec_base_name(crate::record::opt_view(opt.prefix), opt.r2_in@, 50),
            opt.gzip,
        ),
{
    let b1 = base_name(&opt.prefix, &opt.r1_in, 49);
    let b2 = base_name(&opt.prefix, &opt.r2_in, 50);
    (rectify_extension(b1, opt.gzip), rectify_extension(b2, opt.gzip))
}

} // verus!
