//! Library-scan bookkeeping: turn the per-file tag-read results of a
//! walk over one or more roots into the track list a caller keeps.
//!
//! Overlapping roots can hand the same file in more than once; only the
//! first occurrence of each path is kept, in order, and failed tag reads
//! are counted among the kept rows (a broken file still yields a row,
//! just without metadata).

use vstd::prelude::*;

use crate::track::TrackRow;

verus! {

/// Whether some kept row already carries path `p`.
pub open spec fn has_path(rows: Seq<TrackRow>, p: Seq<char>) -> bool {
    exists|j: int| 0 <= j < rows.len() && rows[j].path@ == p
}

/// The rows kept from the first `n` read results: each row whose path
/// was not seen before it, in order.
pub open spec fn kept_rows(reads: Seq<(TrackRow, bool)>, n: int) -> Seq<TrackRow>
    recommends
        0 <= n <= reads.len(),
    decreases n,
{
    if n <= 0 {
        Seq::empty()
    } else {
        let pre = kept_rows(reads, n - 1);
        if has_path(pre, reads[n - 1].0.path@) {
            pre
        } else {
            pre.push(reads[n - 1].0)
        }
    }
}

/// How many of the rows kept from the first `n` read results came from
/// a failed tag read.
pub open spec fn kept_failures(reads: Seq<(TrackRow, bool)>, n: int) -> int
    recommends
        0 <= n <= reads.len(),
    decreases n,
{
    if n <= 0 {
        0
    } else {
        kept_failures(reads, n - 1) + if !has_path(kept_rows(reads, n - 1), reads[n - 1].0.path@)
            && reads[n - 1].1 {
            1int
        } else {
            0int
        }
    }
}

proof fn lemma_kept_bounds(reads: Seq<(TrackRow, bool)>, n: int)
    requires
        0 <= n <= reads.len(),
    ensures
        kept_rows(reads, n).len() <= n,
        0 <= kept_failures(reads, n) <= n,
    decreases n,
{
    if n > 0 {
        lemma_kept_bounds(reads, n - 1);
    }
}

/// Collect the tag-read results of a scan over one or more roots —
/// one `(row, read_failed)` pair per discovered file, roots in order —
/// into the track list: the first row for each distinct path, in
/// order, together with how many of the kept rows failed their tag
/// read.
pub fn scan_and_read_roots(reads: Vec<(TrackRow, bool)>) -> (r: (Vec<TrackRow>, usize))
    ensures
        r.0@ =~= kept_rows(reads@, reads@.len() as int),
        r.1 == kept_failures(reads@, reads@.len() as int),
{
    let ghost all = reads@;
    let mut reads = reads;
    let n: usize = reads.len();
    assert(all.len() == n);
    let mut rows: Vec<TrackRow> = Vec::new();
    let mut tag_failures: usize = 0;
    let mut i: usize = 0;
    while reads.len() > 0
        invariant
            all.len() <= usize::MAX,
            0 <= i <= all.len(),
            reads@ =~= all.subrange(i as int, all.len() as int),
            rows@ =~= kept_rows(all, i as int),
            tag_failures == kept_failures(all, i as int),
        decreases reads@.len(),
    {
        proof {
            lemma_kept_bounds(all, i as int);
            assert(i < all.len());
        }
        let (row, failed) = reads.remove(0);
        proof {
            assert(reads@ =~= all.subrange(i + 1, all.len() as int));
        }
        assert(row == all[i as int].0 && failed == all[i as int].1);
        let mut seen = false;
        let mut j: usize = 0;
        while j < rows.len()
            invariant
                0 <= j <= rows@.len(),
                seen <==> exists|k: int| 0 <= k < j && rows@[k].path@ == row.path@,
            decreases rows@.len() - j,
        {
            if rows[j].path == row.path {
                seen = true;
            }
            j = j + 1;
        }
        if !seen {
            if failed {
                tag_failures = tag_failures + 1;
            }
            rows.push(row);
        }
        i = i + 1;
    }
    (rows, tag_failures)
}

} // verus!
