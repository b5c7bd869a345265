//! What every cleanup run guarantees, whatever the files and options.
use crate::cleanup::options::CleanupOptionsView;
use crate::cleanup::order::oldest_first;
use crate::cleanup::plan::{
    FileOutcomeView, evict_count, first_pass_files, first_pass_result, size_pass_result, in_range, is_protected, lemma_filter_distinct,
    lemma_order_distinct, remaining_files, selected, should_process, size_pass_applies,
    size_pass_files, still_present, sum_sizes,
};
use crate::cleanup::result::{CleanupResultView, empty_result};
use crate::cleanup::run::{lemma_take_prefix, spec_cleanup_result};
use crate::cleanup::stats::{LogFileInfoView, ages_of};
use vstd::prelude::*;

verus! {

/// The first pass processes exactly the files that keep-last does not protect
/// and that a filter picks, each of them once.
pub proof fn law_first_pass_selection(fv: Seq<LogFileInfoView>, o: CleanupOptionsView)
    ensures
        first_pass_files(fv, o).no_duplicates(),
        forall|i: int|
            first_pass_files(fv, o).contains(i) <==> (0 <= i < fv.len() && !is_protected(
                fv,
                o.keep_last,
                fv[i].path,
            ) && should_process(o, fv[i])),
{
    let ord = oldest_first(ages_of(fv));
    lemma_order_distinct(fv);
    lemma_filter_distinct(ord, selected(fv, o), fv.len() as int);
    assert forall|i: int|
        (0 <= i < fv.len() && !is_protected(fv, o.keep_last, fv[i].path) && should_process(
            o,
            fv[i],
        )) implies first_pass_files(fv, o).contains(i) by {
        crate::cleanup::order::lemma_oldest_first(ages_of(fv));
        crate::cleanup::order::lemma_rank_desc_bound(ages_of(fv), i);
        let k = crate::cleanup::order::rank_desc(ages_of(fv), i) as int;
        assert(ord[k] == i);
        assert(selected(fv, o)(ord[k]));
        ord.lemma_filter_contains(selected(fv, o), k);
    }
    assert forall|i: int| first_pass_files(fv, o).contains(i) implies 0 <= i < fv.len() by {
        let k = choose|k: int| 0 <= k < first_pass_files(fv, o).len() && first_pass_files(fv, o)[k] == i;
    }
}

/// Neither pass ever touches a file that keep-last protects.
pub proof fn law_protected_files_untouched(
    fv: Seq<LogFileInfoView>,
    o: CleanupOptionsView,
    r1: CleanupResultView,
    limit: nat,
)
    ensures
        forall|i: int| #[trigger]
            first_pass_files(fv, o).contains(i) ==> !is_protected(fv, o.keep_last, fv[i].path),
        forall|i: int| #[trigger]
            size_pass_files(fv, o, r1, limit).contains(i) ==> !is_protected(
                fv,
                o.keep_last,
                fv[i].path,
            ),
{
    let ord = oldest_first(ages_of(fv));
    lemma_order_distinct(fv);
    lemma_filter_distinct(ord, selected(fv, o), fv.len() as int);
    lemma_filter_distinct(ord, still_present(fv, o, r1), fv.len() as int);
    let rem = remaining_files(fv, o, r1);
    crate::cleanup::plan::lemma_evict_count_bound(fv, rem, limit);
    lemma_take_prefix(rem, evict_count(fv, rem, limit) as int, fv.len() as int);
}

/// The size pass evicts the oldest remaining files first: after it, the files
/// it did not evict fit in the limit, and it stopped as soon as they did (the
/// last eviction was needed).
pub proof fn law_size_limit_met(fv: Seq<LogFileInfoView>, rem: Seq<int>, limit: nat)
    ensures
        evict_count(fv, rem, limit) <= rem.len(),
        sum_sizes(fv, rem.skip(evict_count(fv, rem, limit) as int)) <= limit,
        evict_count(fv, rem, limit) > 0 ==> sum_sizes(
            fv,
            rem.skip(evict_count(fv, rem, limit) - 1),
        ) > limit,
    decreases rem.len(),
{
    crate::cleanup::plan::lemma_evict_count_bound(fv, rem, limit);
    if rem.len() == 0 {
        assert(rem.skip(0) =~= rem);
    } else if sum_sizes(fv, rem) <= limit {
        assert(rem.skip(0) =~= rem);
    } else {
        let tail = rem.drop_first();
        law_size_limit_met(fv, tail, limit);
        let e = evict_count(fv, tail, limit) as int;
        assert(rem.skip(1 + e) =~= tail.skip(e));
        if e > 0 {
            assert(rem.skip(e) =~= tail.skip(e - 1));
        } else {
            assert(rem.skip(0) =~= rem);
        }
    }
}

/// Without a filter, `delete_all` or a size limit nothing is deleted,
/// compressed or listed, whatever happens on disk.
pub proof fn law_no_filter_no_action(
    fv: Seq<LogFileInfoView>,
    o: CleanupOptionsView,
    outs: Seq<FileOutcomeView>,
    removed: Seq<FileOutcomeView>,
)
    requires
        !o.delete_all,
        o.max_age_days is None,
        o.before_date is None,
        o.after_date is None,
        o.max_total_size is None,
    ensures
        first_pass_files(fv, o).len() == 0,
        !size_pass_applies(o),
        spec_cleanup_result(fv, o, outs, removed) == empty_result(),
{
    law_first_pass_selection(fv, o);
    let p = first_pass_files(fv, o);
    if p.len() > 0 {
        assert(p.contains(p[0]));
    }
}

proof fn lemma_first_pass_sides(
    fv: Seq<LogFileInfoView>,
    o: CleanupOptionsView,
    procs: Seq<int>,
    outs: Seq<FileOutcomeView>,
)
    ensures
        ({
            let r = first_pass_result(empty_result(), fv, o, procs, outs);
            &&& o.dry_run ==> r.deleted.len() == 0
            &&& !o.dry_run ==> r.would_delete.len() == 0
        }),
    decreases procs.len(),
{
    if procs.len() > 0 {
        lemma_first_pass_sides(fv, o, procs.drop_last(), outs);
    }
}

proof fn lemma_size_pass_sides(
    r1: CleanupResultView,
    fv: Seq<LogFileInfoView>,
    dry_run: bool,
    vs: Seq<int>,
    removed: Seq<FileOutcomeView>,
)
    requires
        dry_run ==> r1.deleted.len() == 0,
        !dry_run ==> r1.would_delete.len() == 0,
    ensures
        ({
            let r = size_pass_result(r1, fv, dry_run, vs, removed);
            &&& dry_run ==> r.deleted.len() == 0
            &&& !dry_run ==> r.would_delete.len() == 0
        }),
    decreases vs.len(),
{
    if vs.len() > 0 {
        lemma_size_pass_sides(r1, fv, dry_run, vs.drop_last(), removed);
    }
}

/// A dry run lists files only as to be deleted, a real run only as deleted;
/// so `count` (the deleted files, or when there are none the files to be
/// deleted) is the dry run's would-delete count and the real run's deleted count.
pub proof fn law_count_matches_run(
    fv: Seq<LogFileInfoView>,
    o: CleanupOptionsView,
    outs: Seq<FileOutcomeView>,
    removed: Seq<FileOutcomeView>,
)
    ensures
        ({
            let r = spec_cleanup_result(fv, o, outs, removed);
            &&& o.dry_run ==> r.deleted.len() == 0
            &&& !o.dry_run ==> r.would_delete.len() == 0
            &&& (if r.deleted.len() == 0 {
                r.would_delete.len()
            } else {
                r.deleted.len()
            }) == (if o.dry_run {
                r.would_delete.len()
            } else {
                r.deleted.len()
            })
        }),
{
    let r1 = first_pass_result(empty_result(), fv, o, first_pass_files(fv, o), outs);
    lemma_first_pass_sides(fv, o, first_pass_files(fv, o), outs);
    if size_pass_applies(o) {
        lemma_size_pass_sides(
            r1,
            fv,
            o.dry_run,
            size_pass_files(fv, o, r1, o.max_total_size.unwrap() as nat),
            removed,
        );
    }
}

} // verus!
