//! The counters of a run: files seen, and files found per format.
use vstd::prelude::*;
use crate::format::FormatTag;

verus! {

/// Number of distinct format codes a tally has room for.
pub const CODES: usize = 256;

/// Sum of a sequence of counters.
pub open spec fn sum_of(s: Seq<u64>) -> int
    decreases s.len(),
{
    if s.len() == 0 {
        0
    } else {
        sum_of(s.drop_last()) + s.last()
    }
}

/// Changing one counter changes the sum by the difference.
proof fn lemma_sum_update(s: Seq<u64>, i: int, v: u64)
    requires
        0 <= i < s.len(),
    ensures
        sum_of(s.update(i, v)) == sum_of(s) - s[i] + v,
    decreases s.len(),
{
    let t = s.update(i, v);
    if i == s.len() - 1 {
        assert(t.drop_last() =~= s.drop_last());
    } else {
        lemma_sum_update(s.drop_last(), i, v);
        assert(t.drop_last() =~= s.drop_last().update(i, v));
    }
}

/// Every counter is at most the sum of all of them.
proof fn lemma_sum_bounds(s: Seq<u64>, i: int)
    requires
        0 <= i < s.len(),
    ensures
        s[i] <= sum_of(s),
        sum_of(s) >= 0,
    decreases s.len(),
{
    lemma_sum_nonneg(s.drop_last());
    if i < s.len() - 1 {
        lemma_sum_bounds(s.drop_last(), i);
    }
}

/// A sum of counters is never negative.
proof fn lemma_sum_nonneg(s: Seq<u64>)
    ensures
        sum_of(s) >= 0,
    decreases s.len(),
{
    if s.len() > 0 {
        lemma_sum_nonneg(s.drop_last());
    }
}

/// The statistics of one run: how many files were seen, and how many of
/// them were found to hold each format.
pub struct Stats {
    total: u64,
    counts: Vec<u64>,
}

impl Stats {
    /// Files seen so far.
    pub closed spec fn seen(&self) -> nat {
        self.total as nat
    }

    /// Files found so far to hold the format with this code.
    pub closed spec fn count_of(&self, code: u8) -> nat {
        self.counts@[code as int] as nat
    }

    /// Files found so far to hold some format.
    pub closed spec fn classified(&self) -> int {
        sum_of(self.counts@)
    }

    /// One counter per code, and never more files classified than seen.
    pub closed spec fn wf(&self) -> bool {
        &&& self.counts@.len() == CODES
        &&& sum_of(self.counts@) <= self.total
    }

    /// Statistics with nothing seen.
    pub fn new() -> (r: Stats)
        ensures
            r.wf(),
            r.seen() == 0,
            forall|c: u8| r.count_of(c) == 0,
    {
        let counts: Vec<u64> = vec![0u64; CODES];
        let r = Stats { total: 0, counts };
        assert forall|k: int| 0 <= k <= CODES implies sum_of(#[trigger] counts@.subrange(0, k)) == 0 by {
            lemma_prefix_zero(counts@, k);
        }
        assert(counts@.subrange(0, CODES as int) =~= counts@);
        r
    }

    /// Counts one more file seen.
    pub fn file(&mut self)
        requires
            old(self).wf(),
            old(self).seen() < u64::MAX,
        ensures
            final(self).wf(),
            final(self).seen() == old(self).seen() + 1,
            forall|c: u8| final(self).count_of(c) == old(self).count_of(c),
            final(self).classified() == old(self).classified(),
    {
        self.total = self.total + 1;
    }

    /// Counts one more file found to hold `tag`'s format. Each file seen is
    /// classified at most once, so there must be a seen file not yet counted.
    pub fn add(&mut self, tag: FormatTag)
        requires
            old(self).wf(),
            old(self).classified() < old(self).seen(),
        ensures
            final(self).wf(),
            final(self).seen() == old(self).seen(),
            final(self).count_of(tag.code) == old(self).count_of(tag.code) + 1,
            forall|c: u8| c != tag.code ==> final(self).count_of(c) == old(self).count_of(c),
            final(self).classified() == old(self).classified() + 1,
    {
        let i = tag.code as usize;
        proof {
            lemma_sum_bounds(self.counts@, i as int);
        }
        let v = self.counts[i] + 1;
        proof {
            lemma_sum_update(self.counts@, i as int, v);
        }
        self.counts.set(i, v);
    }

    /// Counts one file whose classification came out as `tag`: it is seen,
    /// and counted under its format if it has one.
    pub fn record(&mut self, tag: Option<FormatTag>)
        requires
            old(self).wf(),
            old(self).seen() < u64::MAX,
        ensures
            final(self).wf(),
            final(self).seen() == old(self).seen() + 1,
            forall|c: u8| #[trigger] final(self).count_of(c) == old(self).count_of(c) + (if tag == Some(FormatTag { code: c }) { 1int } else { 0int }),
    {
        self.file();
        match tag {
            Some(t) => self.add(t),
            None => {},
        }
    }

    /// Files seen so far.
    pub fn total(&self) -> (r: u64)
        ensures
            r == self.seen(),
    {
        self.total
    }

    /// Files found so far to hold the format of `tag`.
    pub fn count(&self, tag: FormatTag) -> (r: u64)
        requires
            self.wf(),
        ensures
            r == self.count_of(tag.code),
    {
        self.counts[tag.code as usize]
    }

    /// The formats found so far, each with its count, by increasing code.
    /// Formats never found are left out.
    pub fn counts(&self) -> (r: Vec<(FormatTag, u64)>)
        requires
            self.wf(),
        ensures
            forall|k: int| 0 <= k < r@.len() ==> #[trigger] r@[k].1 == self.count_of(r@[k].0.code) && r@[k].1 > 0,
            forall|k: int, l: int| 0 <= k < l < r@.len() ==> r@[k].0.code < r@[l].0.code,
            forall|c: u8| self.count_of(c) > 0 ==> exists|k: int| 0 <= k < r@.len() && (#[trigger] r@[k]).0.code == c,
    {
        let mut r: Vec<(FormatTag, u64)> = Vec::new();
        let mut i: usize = 0;
        while i < CODES
            invariant
                self.wf(),
                i <= CODES,
                forall|k: int| 0 <= k < r@.len() ==> #[trigger] r@[k].1 == self.count_of(r@[k].0.code) && r@[k].1 > 0 && r@[k].0.code < i,
                forall|k: int, l: int| 0 <= k < l < r@.len() ==> r@[k].0.code < r@[l].0.code,
                forall|c: u8| c < i && self.count_of(c) > 0 ==> exists|k: int| 0 <= k < r@.len() && (#[trigger] r@[k]).0.code == c,
            decreases CODES - i,
        {
            let v = self.counts[i];
            assert((i as u8) as int == i as int);
            if v > 0 {
                let ghost before = r@;
                r.push((FormatTag { code: i as u8 }, v));
                assert(forall|k: int| 0 <= k < before.len() ==> r@[k] == before[k]);
                assert(r@[before.len() as int].0.code == i);
                assert(self.count_of(i as u8) == v);
                assert forall|k: int, l: int| 0 <= k < l < r@.len() implies r@[k].0.code < r@[l].0.code by {
                    if l == before.len() {
                        assert(before[k].1 == self.count_of(before[k].0.code));
                    }
                }
                assert forall|c: u8| c < i + 1 && self.count_of(c) > 0 implies exists|k: int| 0 <= k < r@.len() && (#[trigger] r@[k]).0.code == c by {
                    if c < i {
                        let k = choose|k: int| 0 <= k < before.len() && (#[trigger] before[k]).0.code == c;
                        assert(r@[k] == before[k]);
                    } else {
                        assert(r@[r@.len() - 1].0.code == c);
                    }
                }
            }
            i = i + 1;
        }
        r
    }
}

/// The sum of a prefix of all-zero counters is zero.
proof fn lemma_prefix_zero(s: Seq<u64>, k: int)
    requires
        0 <= k <= s.len(),
        forall|j: int| 0 <= j < s.len() ==> s[j] == 0,
    ensures
        sum_of(s.subrange(0, k)) == 0,
    decreases k,
{
    if k > 0 {
        lemma_prefix_zero(s, k - 1);
        assert(s.subrange(0, k).drop_last() =~= s.subrange(0, k - 1));
    }
}

/// Files that fail to open, to be read or to be recognised are counted as
/// seen but under no format, so a tally never holds more classified files
/// than files seen.
pub proof fn lemma_classified_within_seen(s: &Stats)
    requires
        s.wf(),
    ensures
        s.classified() <= s.seen(),
{
}

} // verus!
