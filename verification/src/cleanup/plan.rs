//! The decisions of a cleanup run: the oldest-first order, the files that
//! keep-last protects, the files the filters select, the files the size limit
//! evicts, and what each of these does to the result.
use crate::cleanup::date::date_lt;
use crate::cleanup::options::CleanupOptionsView;
use crate::cleanup::order::{lemma_oldest_first, oldest_first, rank_asc};
use crate::cleanup::result::CleanupResultView;
use crate::cleanup::stats::{LogFileInfoView, ages_of, total_size};
use vstd::prelude::*;

verus! {

/// A list of indices as integers.
pub open spec fn idx_view(v: Seq<usize>) -> Seq<int> {
    v.map_values(|x: usize| x as int)
}

/// Every index lies in `0..n`.
pub open spec fn in_range(idx: Seq<int>, n: int) -> bool {
    forall|k: int| 0 <= k < idx.len() ==> 0 <= #[trigger] idx[k] < n
}

/// Sum of the sizes of the files at the given indices.
pub open spec fn sum_sizes(fv: Seq<LogFileInfoView>, idx: Seq<int>) -> nat
    decreases idx.len(),
{
    if idx.len() == 0 {
        0
    } else {
        sum_sizes(fv, idx.drop_last()) + fv[idx.last()].size as nat
    }
}

/// Whether keep-last protects a path: it belongs to one of the `n` newest files.
pub open spec fn is_protected(fv: Seq<LogFileInfoView>, keep: Option<usize>, path: Seq<char>) -> bool {
    match keep {
        Some(n) => exists|i: int|
            0 <= i < fv.len() && rank_asc(ages_of(fv), i) < n && #[trigger] fv[i].path == path,
        None => false,
    }
}

/// Whether a file is older than the age limit.
pub open spec fn age_match(o: CleanupOptionsView, f: LogFileInfoView) -> bool {
    match o.max_age_days {
        Some(max) => f.age_days > max,
        None => false,
    }
}

/// Whether a file was last modified before the `before` date.
pub open spec fn before_match(o: CleanupOptionsView, f: LogFileInfoView) -> bool {
    match (o.before_date, f.modified_date) {
        (Some(before), Some(d)) => date_lt(d, before),
        _ => false,
    }
}

/// Whether a file was last modified after the `after` date.
pub open spec fn after_match(o: CleanupOptionsView, f: LogFileInfoView) -> bool {
    match (o.after_date, f.modified_date) {
        (Some(after), Some(d)) => date_lt(after, d),
        _ => false,
    }
}

/// Whether the filters pick a file: everything with `delete_all`, else any
/// matching age or date filter.
pub open spec fn should_process(o: CleanupOptionsView, f: LogFileInfoView) -> bool {
    o.delete_all || age_match(o, f) || before_match(o, f) || after_match(o, f)
}

/// Whether the first pass processes the file at index `i`: it is not protected
/// and the filters pick it.
pub open spec fn selected(fv: Seq<LogFileInfoView>, o: CleanupOptionsView) -> spec_fn(int) -> bool {
    |i: int| !is_protected(fv, o.keep_last, fv[i].path) && should_process(o, fv[i])
}

/// The files the first pass processes, oldest first.
pub open spec fn first_pass_files(fv: Seq<LogFileInfoView>, o: CleanupOptionsView) -> Seq<int> {
    oldest_first(ages_of(fv)).filter(selected(fv, o))
}

/// What happened to a file the first pass processed.
pub enum FileOutcome {
    /// The file was removed.
    Removed,
    /// Removing the file failed, for this reason.
    NotRemoved(String),
    /// The file was compressed, saving this many bytes.
    Compressed(u64),
    /// Compressing the file failed, for this reason.
    CompressFailed(String),
}

/// The value of a [`FileOutcome`].
pub enum FileOutcomeView {
    Removed,
    NotRemoved(Seq<char>),
    Compressed(u64),
    CompressFailed(Seq<char>),
}

impl View for FileOutcome {
    type V = FileOutcomeView;

    open spec fn view(&self) -> FileOutcomeView {
        match self {
            FileOutcome::Removed => FileOutcomeView::Removed,
            FileOutcome::NotRemoved(m) => FileOutcomeView::NotRemoved(m@),
            FileOutcome::Compressed(s) => FileOutcomeView::Compressed(*s),
            FileOutcome::CompressFailed(m) => FileOutcomeView::CompressFailed(m@),
        }
    }
}

/// The views of a list of outcomes.
pub open spec fn outcomes_view(v: Seq<FileOutcome>) -> Seq<FileOutcomeView> {
    v.map_values(|x: FileOutcome| x@)
}

/// What processing one file adds to the result: a dry run lists it (with its
/// size, or half its size as the compression estimate); a real run lists what
/// succeeded, and what failed with its reason.
pub open spec fn record_processed(
    r: CleanupResultView,
    o: CleanupOptionsView,
    f: LogFileInfoView,
    out: FileOutcomeView,
) -> CleanupResultView {
    if o.compress {
        if o.dry_run {
            CleanupResultView {
                would_compress: r.would_compress.push(f.path),
                would_compress_save: r.would_compress_save + (f.size / 2) as nat,
                ..r
            }
        } else {
            match out {
                FileOutcomeView::Compressed(saved) => CleanupResultView {
                    compressed: r.compressed.push(f.path),
                    compressed_saved: r.compressed_saved + saved as nat,
                    ..r
                },
                FileOutcomeView::CompressFailed(msg) => CleanupResultView {
                    failed: r.failed.push((f.path, msg)),
                    ..r
                },
                _ => r,
            }
        }
    } else {
        if o.dry_run {
            CleanupResultView {
                would_delete: r.would_delete.push(f.path),
                would_free: r.would_free + f.size as nat,
                ..r
            }
        } else {
            match out {
                FileOutcomeView::Removed => CleanupResultView {
                    deleted: r.deleted.push(f.path),
                    freed: r.freed + f.size as nat,
                    ..r
                },
                FileOutcomeView::NotRemoved(msg) => CleanupResultView {
                    failed: r.failed.push((f.path, msg)),
                    ..r
                },
                _ => r,
            }
        }
    }
}

/// The result of the first pass over `procs`, the `k`-th file having outcome `outs[k]`.
pub open spec fn first_pass_result(
    r0: CleanupResultView,
    fv: Seq<LogFileInfoView>,
    o: CleanupOptionsView,
    procs: Seq<int>,
    outs: Seq<FileOutcomeView>,
) -> CleanupResultView
    decreases procs.len(),
{
    if procs.len() == 0 {
        r0
    } else {
        record_processed(
            first_pass_result(r0, fv, o, procs.drop_last(), outs),
            o,
            fv[procs.last()],
            outs[procs.len() - 1],
        )
    }
}

/// The files still present after the first pass that the size limit may evict:
/// not deleted, not listed for deletion, not protected; oldest first.
pub open spec fn remaining_files(
    fv: Seq<LogFileInfoView>,
    o: CleanupOptionsView,
    r1: CleanupResultView,
) -> Seq<int> {
    oldest_first(ages_of(fv)).filter(still_present(fv, o, r1))
}

/// Whether the file at index `i` may still be evicted after the first pass.
pub open spec fn still_present(
    fv: Seq<LogFileInfoView>,
    o: CleanupOptionsView,
    r1: CleanupResultView,
) -> spec_fn(int) -> bool {
    |i: int|
        !r1.deleted.contains(fv[i].path) && !r1.would_delete.contains(fv[i].path) && !is_protected(
            fv,
            o.keep_last,
            fv[i].path,
        )
}

/// How many files, taken from the front of `rem` (the oldest first), must go
/// for the rest to fit in `limit`.
pub open spec fn evict_count(fv: Seq<LogFileInfoView>, rem: Seq<int>, limit: nat) -> nat
    decreases rem.len(),
{
    if sum_sizes(fv, rem) <= limit || rem.len() == 0 {
        0
    } else {
        1 + evict_count(fv, rem.drop_first(), limit)
    }
}

/// No more files are evicted than there are.
pub proof fn lemma_evict_count_bound(fv: Seq<LogFileInfoView>, rem: Seq<int>, limit: nat)
    ensures
        evict_count(fv, rem, limit) <= rem.len(),
    decreases rem.len(),
{
    if rem.len() > 0 {
        lemma_evict_count_bound(fv, rem.drop_first(), limit);
    }
}

/// The files the size limit evicts, in eviction order: from the front of the
/// remaining list (the oldest of them first) until the rest fits.
pub open spec fn size_pass_files(
    fv: Seq<LogFileInfoView>,
    o: CleanupOptionsView,
    r1: CleanupResultView,
    limit: nat,
) -> Seq<int> {
    let rem = remaining_files(fv, o, r1);
    rem.take(evict_count(fv, rem, limit) as int)
}

/// What evicting one file adds: a dry run lists it; a real run lists it as
/// deleted when the removal succeeded, and as failed, with the reason, when not.
pub open spec fn record_evicted(
    r: CleanupResultView,
    dry_run: bool,
    f: LogFileInfoView,
    removed: FileOutcomeView,
) -> CleanupResultView {
    if dry_run {
        CleanupResultView {
            would_delete: r.would_delete.push(f.path),
            would_free: r.would_free + f.size as nat,
            ..r
        }
    } else {
        match removed {
            FileOutcomeView::Removed => CleanupResultView {
                deleted: r.deleted.push(f.path),
                freed: r.freed + f.size as nat,
                ..r
            },
            FileOutcomeView::NotRemoved(msg) => CleanupResultView {
                failed: r.failed.push((f.path, msg)),
                ..r
            },
            _ => r,
        }
    }
}

/// The result after evicting `vs`, the `k`-th removal having had outcome `removed[k]`.
pub open spec fn size_pass_result(
    r1: CleanupResultView,
    fv: Seq<LogFileInfoView>,
    dry_run: bool,
    vs: Seq<int>,
    removed: Seq<FileOutcomeView>,
) -> CleanupResultView
    decreases vs.len(),
{
    if vs.len() == 0 {
        r1
    } else {
        record_evicted(
            size_pass_result(r1, fv, dry_run, vs.drop_last(), removed),
            dry_run,
            fv[vs.last()],
            removed[vs.len() - 1],
        )
    }
}

/// Whether the size pass runs: deleting (not compressing) with a size limit.
pub open spec fn size_pass_applies(o: CleanupOptionsView) -> bool {
    !o.compress && o.max_total_size is Some
}

// ---------------------------------------------------------------------------
// Sums over distinct files stay within the total
// ---------------------------------------------------------------------------

/// Dropping entries never increases the sum.
pub proof fn lemma_sum_filter_le(fv: Seq<LogFileInfoView>, idx: Seq<int>, p: spec_fn(int) -> bool)
    ensures
        sum_sizes(fv, idx.filter(p)) <= sum_sizes(fv, idx),
    decreases idx.len(),
{
    reveal(Seq::filter);
    if idx.len() > 0 {
        let init = idx.drop_last();
        lemma_sum_filter_le(fv, init, p);
        if p(idx.last()) {
            assert(idx.filter(p).drop_last() =~= init.filter(p));
        }
    }
}

/// Filtering keeps a list free of duplicates and within range.
pub proof fn lemma_filter_distinct(idx: Seq<int>, p: spec_fn(int) -> bool, n: int)
    requires
        idx.no_duplicates(),
        in_range(idx, n),
    ensures
        idx.filter(p).no_duplicates(),
        in_range(idx.filter(p), n),
        forall|x: int| #[trigger] idx.filter(p).contains(x) ==> idx.contains(x) && p(x),
    decreases idx.len(),
{
    reveal(Seq::filter);
    if idx.len() > 0 {
        let init = idx.drop_last();
        let last = idx.last();
        assert(init.no_duplicates());
        assert(in_range(init, n));
        lemma_filter_distinct(init, p, n);
        let f = init.filter(p);
        assert forall|x: int| init.contains(x) implies idx.contains(x) by {
            let k = choose|k: int| 0 <= k < init.len() && init[k] == x;
            assert(idx[k] == x);
        }
        assert(idx[idx.len() - 1] == last);
        if p(last) {
            assert(!init.contains(last)) by {
                if init.contains(last) {
                    let k = choose|k: int| 0 <= k < init.len() && init[k] == last;
                    assert(idx[k] == idx[idx.len() - 1]);
                }
            }
            assert(!f.contains(last));
            let g = f.push(last);
            assert(idx.filter(p) == g);
            assert forall|x: int| g.contains(x) implies idx.contains(x) && p(x) by {
                if x != last {
                    let k = choose|k: int| 0 <= k < g.len() && g[k] == x;
                    assert(f[k] == x);
                    assert(f.contains(x));
                }
            }
            assert forall|j1: int, j2: int|
                0 <= j1 < g.len() && 0 <= j2 < g.len() && j1 != j2 implies g[j1] != g[j2] by {
                if j1 == g.len() - 1 {
                    assert(f.contains(g[j2]));
                } else if j2 == g.len() - 1 {
                    assert(f.contains(g[j1]));
                }
            }
        }
    }
}

/// Splitting off one index: the sum over a duplicate-free list is the sum
/// without it plus its size when it occurs.
pub proof fn lemma_sum_without(fv: Seq<LogFileInfoView>, idx: Seq<int>, x: int)
    requires
        idx.no_duplicates(),
    ensures
        sum_sizes(fv, idx) == sum_sizes(fv, idx.filter(|i: int| i != x)) + if idx.contains(x) {
            fv[x].size as nat
        } else {
            0nat
        },
    decreases idx.len(),
{
    reveal(Seq::filter);
    let p = |i: int| i != x;
    if idx.len() > 0 {
        let init = idx.drop_last();
        let last = idx.last();
        assert(init.no_duplicates());
        lemma_sum_without(fv, init, x);
        assert(idx[idx.len() - 1] == last);
        if last == x {
            assert(!init.contains(x)) by {
                if init.contains(x) {
                    let k = choose|k: int| 0 <= k < init.len() && init[k] == x;
                    assert(idx[k] == idx[idx.len() - 1]);
                }
            }
            assert(idx.contains(x));
            assert(idx.filter(p) == init.filter(p));
        } else {
            assert(idx.contains(x) == init.contains(x)) by {
                if idx.contains(x) {
                    let k = choose|k: int| 0 <= k < idx.len() && idx[k] == x;
                    assert(init[k] == x);
                }
                if init.contains(x) {
                    let k = choose|k: int| 0 <= k < init.len() && init[k] == x;
                    assert(idx[k] == x);
                }
            }
            assert(idx.filter(p) == init.filter(p).push(last));
            assert(idx.filter(p).drop_last() =~= init.filter(p));
        }
    } else {
        assert(idx.filter(p) =~= idx);
    }
}

/// The sizes of distinct files add up to at most the total of the first `k` files
/// when all of them are among those.
pub proof fn lemma_sum_distinct_le(fv: Seq<LogFileInfoView>, idx: Seq<int>, k: int)
    requires
        idx.no_duplicates(),
        in_range(idx, k),
        k <= fv.len(),
    ensures
        sum_sizes(fv, idx) <= total_size(fv, k),
    decreases k,
{
    if k <= 0 {
        if idx.len() > 0 {
            assert(0 <= idx[0] < k);
        }
    } else {
        let p = |i: int| i != k - 1;
        lemma_sum_without(fv, idx, k - 1);
        lemma_filter_distinct(idx, p, k);
        let rest = idx.filter(p);
        assert(in_range(rest, k - 1)) by {
            assert forall|j: int| 0 <= j < rest.len() implies 0 <= #[trigger] rest[j] < k - 1 by {
                assert(rest.contains(rest[j]));
            }
        }
        lemma_sum_distinct_le(fv, rest, k - 1);
    }
}

/// The oldest-first order lists every file once.
pub proof fn lemma_order_distinct(fv: Seq<LogFileInfoView>)
    ensures
        oldest_first(ages_of(fv)).no_duplicates(),
        in_range(oldest_first(ages_of(fv)), fv.len() as int),
        oldest_first(ages_of(fv)).len() == fv.len(),
{
    let a = ages_of(fv);
    lemma_oldest_first(a);
    let ord = oldest_first(a);
    assert forall|x: int, y: int| 0 <= x < ord.len() && 0 <= y < ord.len() && x != y implies ord[x]
        != ord[y] by {
        assert(crate::cleanup::order::rank_desc(a, ord[x]) == x);
        assert(crate::cleanup::order::rank_desc(a, ord[y]) == y);
    }
}

} // verus!
