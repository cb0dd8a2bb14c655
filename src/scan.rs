//! What a scan worker decides for each path it pulls, and the tally of a
//! whole run over what was read.
use vstd::prelude::*;
use crate::format::{classify_prefix, header_block, tag_of_block, FormatTag};
use crate::stats::Stats;

verus! {

/// The tag a pulled path ends with: `read` holds the bytes read from the
/// start of the file, or `None` where the file could not be opened.
pub open spec fn outcome(read: Option<Vec<u8>>) -> Option<FormatTag> {
    match read {
        Some(p) => tag_of_block(header_block(p@)),
        None => None,
    }
}

/// How many of the pulled paths ended with the format numbered `code`.
pub open spec fn occurrences(reads: Seq<Option<Vec<u8>>>, code: u8) -> nat
    decreases reads.len(),
{
    if reads.len() == 0 {
        0
    } else {
        occurrences(reads.drop_last(), code) + if outcome(reads.last()) == Some(FormatTag { code }) {
            1nat
        } else {
            0nat
        }
    }
}

/// One worker step for a pulled path: the file counts as seen whatever
/// happens; where it was opened, its first bytes are classified and, when a
/// format is recognised, counted under it. The tag comes back so that the
/// caller can hand the file on for a full decode.
pub fn scan_one(stats: &mut Stats, read: &Option<Vec<u8>>) -> (r: Option<FormatTag>)
    requires
        old(stats).wf(),
        old(stats).seen() < u64::MAX,
    ensures
        r == outcome(*read),
        final(stats).wf(),
        final(stats).seen() == old(stats).seen() + 1,
        forall|c: u8| #[trigger] final(stats).count_of(c) == old(stats).count_of(c) + (if r == Some(FormatTag { code: c }) { 1int } else { 0int }),
{
    let tag = match read {
        Some(p) => classify_prefix(p.as_slice()),
        None => None,
    };
    stats.record(tag);
    tag
}

/// The statistics of a run over the paths that a source yielded, given
/// what could be read from each: every path is seen once, and each
/// recognised one is counted under its format.
pub fn tally(reads: &Vec<Option<Vec<u8>>>) -> (r: Stats)
    requires
        reads@.len() < u64::MAX,
    ensures
        r.wf(),
        r.seen() == reads@.len(),
        forall|c: u8| #[trigger] r.count_of(c) == occurrences(reads@, c),
{
    let mut stats = Stats::new();
    let mut i: usize = 0;
    while i < reads.len()
        invariant
            i <= reads@.len(),
            reads@.len() < u64::MAX,
            stats.wf(),
            stats.seen() == i,
            forall|c: u8| #[trigger] stats.count_of(c) == occurrences(reads@.subrange(0, i as int), c),
        decreases reads@.len() - i,
    {
        let _ = scan_one(&mut stats, &reads[i]);
        proof {
            assert(reads@.subrange(0, i + 1).drop_last() =~= reads@.subrange(0, i as int));
        }
        i = i + 1;
    }
    assert(reads@.subrange(0, reads@.len() as int) =~= reads@);
    stats
}

} // verus!
