//! The verified steps of a cleanup run. The caller scans the directory, and
//! between the steps removes or compresses the files the steps name; a dry run
//! needs no such work and is decided here in one call.
use crate::cleanup::options::{CleanupOptions, CleanupOptionsView};
use crate::cleanup::order::{is_among_newest, lemma_oldest_first, oldest_first, oldest_first_order};
use crate::cleanup::plan::{
    FileOutcome, FileOutcomeView, first_pass_files, first_pass_result, idx_view, in_range,
    is_protected, lemma_filter_distinct, lemma_order_distinct, lemma_sum_distinct_le, outcomes_view,
    record_evicted, record_processed, remaining_files, selected, still_present, should_process, size_pass_files,
    size_pass_result, evict_count, sum_sizes, size_pass_applies, age_match, before_match, after_match,
};
use crate::cleanup::result::{CleanupResult, CleanupResultView, empty_result};
use crate::cleanup::stats::{LogFileInfo, LogFileInfoView, ages_of, files_view, total_size};
use crate::text::{strings_contain, svec_view};
use vstd::prelude::*;

verus! {

/// Sum of the amounts saved by the first `k` compressions that succeeded.
pub open spec fn saved_total(outs: Seq<FileOutcomeView>, k: int) -> nat
    decreases k,
{
    if k <= 0 {
        0
    } else {
        saved_total(outs, k - 1) + match outs[k - 1] {
            FileOutcomeView::Compressed(s) => s as nat,
            _ => 0nat,
        }
    }
}

/// Prefix sums never exceed the whole sum.
pub proof fn lemma_sum_prefix_le(fv: Seq<LogFileInfoView>, s: Seq<int>, k: int)
    requires
        0 <= k <= s.len(),
    ensures
        sum_sizes(fv, s.take(k)) <= sum_sizes(fv, s),
    decreases s.len(),
{
    if k == s.len() {
        assert(s.take(k) =~= s);
    } else {
        assert(s.drop_last().take(k) =~= s.take(k));
        lemma_sum_prefix_le(fv, s.drop_last(), k);
    }
}

/// Saved totals grow with the prefix.
pub proof fn lemma_saved_mono(outs: Seq<FileOutcomeView>, i: int, j: int)
    requires
        i <= j,
    ensures
        saved_total(outs, i) <= saved_total(outs, j),
    decreases j - i,
{
    if i < j {
        lemma_saved_mono(outs, i, j - 1);
    }
}

/// The byte counts of a first pass stay within the sizes of its files and the
/// amounts its compressions saved.
pub proof fn lemma_first_pass_bounds(
    fv: Seq<LogFileInfoView>,
    o: CleanupOptionsView,
    procs: Seq<int>,
    outs: Seq<FileOutcomeView>,
)
    ensures
        ({
            let r = first_pass_result(empty_result(), fv, o, procs, outs);
            &&& r.freed + r.would_free + r.would_compress_save <= sum_sizes(fv, procs)
            &&& r.compressed_saved <= saved_total(outs, procs.len() as int)
        }),
    decreases procs.len(),
{
    if procs.len() > 0 {
        lemma_first_pass_bounds(fv, o, procs.drop_last(), outs);
    }
}

/// The steps decided before any file is touched.
pub struct CleanupPlan {
    /// File indices oldest first.
    pub order: Vec<usize>,
    /// Paths keep-last protects.
    pub protected: Vec<String>,
    /// File indices the first pass processes, oldest first.
    pub process: Vec<usize>,
}

fn ages_vec(files: &Vec<LogFileInfo>) -> (r: Vec<u64>)
    ensures
        r@ == ages_of(files_view(files@)),
{
    let ghost fv = files_view(files@);
    let n = files.len();
    let mut ages: Vec<u64> = Vec::new();
    let mut i: usize = 0;
    while i < n
        invariant
            n == files@.len(),
            fv == files_view(files@),
            i <= n,
            ages@ == ages_of(fv).take(i as int),
        decreases n - i,
    {
        ages.push(files[i].age_days);
        i = i + 1;
        assert(ages@ =~= ages_of(fv).take(i as int));
    }
    assert(ages@ =~= ages_of(fv));
    ages
}

fn should_process_file(o: &CleanupOptions, f: &LogFileInfo) -> (r: bool)
    ensures
        r == should_process(o@, f@),
{
    let age = match o.max_age_days {
        Some(max) => f.age_days > max as u64,
        None => false,
    };
    let before = match (o.before_date, f.modified_date) {
        (Some(b), Some(d)) => d.is_before(&b),
        _ => false,
    };
    let after = match (o.after_date, f.modified_date) {
        (Some(a), Some(d)) => a.is_before(&d),
        _ => false,
    };
    o.delete_all || age || before || after
}

fn protected_paths(files: &Vec<LogFileInfo>, keep: Option<usize>) -> (r: Vec<String>)
    ensures
        forall|p: Seq<char>| #[trigger]
            svec_view(r@).contains(p) <==> is_protected(files_view(files@), keep, p),
{
    let ghost fv = files_view(files@);
    let mut r: Vec<String> = Vec::new();
    let n = files.len();
    let ages = ages_vec(files);
    match keep {
        Some(k) => {
            let mut i: usize = 0;
            while i < n
                invariant
                    n == files@.len(),
                    fv == files_view(files@),
                    ages@ == ages_of(fv),
                    i <= n,
                    forall|p: Seq<char>| #[trigger]
                        svec_view(r@).contains(p) <==> exists|j: int|
                            0 <= j < i && crate::cleanup::order::rank_asc(ages_of(fv), j) < k
                                && fv[j].path == p,
                decreases n - i,
            {
                let ghost before = svec_view(r@);
                if is_among_newest(&ages, i, k) {
                    r.push(files[i].path.clone());
                    proof {
                        assert(svec_view(r@) =~= before.push(fv[i as int].path));
                        assert(crate::cleanup::order::rank_asc(ages_of(fv), i as int) < k);
                        assert forall|p: Seq<char>| #[trigger]
                            svec_view(r@).contains(p) <==> exists|j: int|
                                0 <= j < i + 1 && crate::cleanup::order::rank_asc(ages_of(fv), j)
                                    < k && fv[j].path == p by {
                            if p == fv[i as int].path {
                                assert(svec_view(r@)[before.len() as int] == p);
                                assert(0 <= i < i + 1 && crate::cleanup::order::rank_asc(ages_of(fv), i as int) < k && fv[i as int].path == p);
                            } else {
                                if svec_view(r@).contains(p) {
                                    let t = choose|t: int| 0 <= t < svec_view(r@).len() && svec_view(r@)[t] == p;
                                    assert(before[t] == p);
                                    assert(before.contains(p));
                                }
                                if exists|j: int|
                                    0 <= j < i + 1 && crate::cleanup::order::rank_asc(ages_of(fv), j) < k
                                        && fv[j].path == p {
                                    let j = choose|j: int|
                                        0 <= j < i + 1 && crate::cleanup::order::rank_asc(ages_of(fv), j)
                                            < k && fv[j].path == p;
                                    assert(j < i);
                                    assert(before.contains(p));
                                    let t = choose|t: int| 0 <= t < before.len() && before[t] == p;
                                    assert(svec_view(r@)[t] == p);
                                }
                            }
                        }
                    }
                } else {
                    proof {
                        assert forall|p: Seq<char>| #[trigger]
                            svec_view(r@).contains(p) <==> exists|j: int|
                                0 <= j < i + 1 && crate::cleanup::order::rank_asc(ages_of(fv), j)
                                    < k && fv[j].path == p by {
                            if exists|j: int|
                                0 <= j < i + 1 && crate::cleanup::order::rank_asc(ages_of(fv), j) < k
                                    && fv[j].path == p {
                                let j = choose|j: int|
                                    0 <= j < i + 1 && crate::cleanup::order::rank_asc(ages_of(fv), j)
                                        < k && fv[j].path == p;
                                assert(j != i);
                            }
                        }
                    }
                }
                i = i + 1;
            }
        },
        None => {
            assert(svec_view(r@) =~= Seq::<Seq<char>>::empty());
        },
    }
    r
}

/// Decides the order, the protected paths and the first pass of a cleanup run.
pub fn plan_cleanup(files: &Vec<LogFileInfo>, options: &CleanupOptions) -> (r: CleanupPlan)
    ensures
        idx_view(r.order@) == oldest_first(ages_of(files_view(files@))),
        forall|p: Seq<char>| #[trigger]
            svec_view(r.protected@).contains(p) <==> is_protected(
                files_view(files@),
                options@.keep_last,
                p,
            ),
        idx_view(r.process@) == first_pass_files(files_view(files@), options@),
        forall|k: int| 0 <= k < r.process@.len() ==> r.process@[k] < files@.len(),
{
    let ghost fv = files_view(files@);
    let ghost o = options@;
    let ghost sel = selected(fv, o);
    let n = files.len();
    let ages = ages_vec(files);
    let order = oldest_first_order(&ages);
    let protected = protected_paths(files, options.keep_last);
    proof {
        lemma_oldest_first(ages@);
        assert(idx_view(order@) =~= oldest_first(ages@));
    }
    let ghost ord = idx_view(order@);
    let mut process: Vec<usize> = Vec::new();
    let mut q: usize = 0;
    assert(ord.take(0).filter(sel) =~= Seq::<int>::empty()) by {
        reveal(Seq::filter);
    }
    assert(idx_view(process@) =~= Seq::<int>::empty());
    while q < n
        invariant
            n == files@.len(),
            fv == files_view(files@),
            o == options@,
            sel == selected(fv, o),
            ages@ == ages_of(fv),
            ord == idx_view(order@),
            ord == oldest_first(ages_of(fv)),
            order@.len() == n,
            forall|k: int| 0 <= k < n ==> 0 <= #[trigger] oldest_first(ages_of(fv))[k] < n,
            forall|p: Seq<char>| #[trigger]
                svec_view(protected@).contains(p) <==> is_protected(fv, o.keep_last, p),
            q <= n,
            idx_view(process@) == ord.take(q as int).filter(sel),
            forall|k: int| 0 <= k < process@.len() ==> process@[k] < n,
        decreases n - q,
    {
        let i = order[q];
        assert(ord[q as int] == i as int);
        let keep = !strings_contain(&protected, files[i].path.as_str()) && should_process_file(
            options,
            &files[i],
        );
        let ghost before = idx_view(process@);
        proof {
            reveal(Seq::filter);
            assert(ord.take(q + 1).drop_last() =~= ord.take(q as int));
            assert(ord.take(q + 1).last() == i as int);
            assert(fv[i as int] == files@[i as int]@);
        }
        if keep {
            process.push(i);
            assert(idx_view(process@) =~= before.push(i as int));
        }
        q = q + 1;
    }
    assert(ord.take(n as int) =~= ord);
    CleanupPlan { order, protected, process }
}

/// The result of the first pass: `process` are the files it processed, in
/// order, and in a real run `outcomes[k]` is what happened to the `k`-th.
pub fn apply_first_pass(
    files: &Vec<LogFileInfo>,
    options: &CleanupOptions,
    process: &Vec<usize>,
    outcomes: &Vec<FileOutcome>,
) -> (r: CleanupResult)
    requires
        forall|k: int| 0 <= k < process@.len() ==> process@[k] < files@.len(),
        idx_view(process@).no_duplicates(),
        total_size(files_view(files@), files@.len() as int) <= u64::MAX,
        options@.dry_run || outcomes@.len() == process@.len(),
        options@.dry_run || saved_total(outcomes_view(outcomes@), process@.len() as int)
            <= u64::MAX,
    ensures
        r@ == first_pass_result(
            empty_result(),
            files_view(files@),
            options@,
            idx_view(process@),
            outcomes_view(outcomes@),
        ),
{
    let ghost fv = files_view(files@);
    let ghost o = options@;
    let ghost procs = idx_view(process@);
    let ghost outs = outcomes_view(outcomes@);
    let mut r = CleanupResult::default();
    proof {
        assert(in_range(procs, fv.len() as int));
        lemma_sum_distinct_le(fv, procs, fv.len() as int);
        assert(procs.take(0) =~= Seq::<int>::empty());
    }
    let mut k: usize = 0;
    while k < process.len()
        invariant
            fv == files_view(files@),
            o == options@,
            procs == idx_view(process@),
            outs == outcomes_view(outcomes@),
            forall|j: int| 0 <= j < process@.len() ==> process@[j] < files@.len(),
            sum_sizes(fv, procs) <= u64::MAX,
            o.dry_run || saved_total(outs, procs.len() as int) <= u64::MAX,
            options@.dry_run || outcomes@.len() == process@.len(),
            k <= process@.len(),
            r@ == first_pass_result(empty_result(), fv, o, procs.take(k as int), outs),
        decreases process@.len() - k,
    {
        let i = process[k];
        let f = &files[i];
        let ghost old_r = r@;
        proof {
            assert(procs.take(k + 1).drop_last() =~= procs.take(k as int));
            assert(procs.take(k + 1).last() == i as int);
            lemma_first_pass_bounds(fv, o, procs.take(k + 1), outs);
            crate::cleanup::run::lemma_sum_prefix_le(fv, procs, k + 1);
            lemma_saved_mono(outs, k + 1, procs.len() as int);
            assert(fv[i as int] == f@);
        }
        if options.compress {
            if options.dry_run {
                r.would_compress.push(f.path.clone());
                r.would_compress_save = r.would_compress_save + f.size / 2;
            } else {
                assert(outs[k as int] == outcomes@[k as int]@);
                match &outcomes[k] {
                    FileOutcome::Compressed(saved) => {
                        r.compressed.push(f.path.clone());
                        r.compressed_saved = r.compressed_saved + *saved;
                    },
                    FileOutcome::CompressFailed(msg) => {
                        r.failed.push((f.path.clone(), msg.clone()));
                    },
                    _ => {},
                }
            }
        } else {
            if options.dry_run {
                r.would_delete.push(f.path.clone());
                r.would_free = r.would_free + f.size;
            } else {
                assert(outs[k as int] == outcomes@[k as int]@);
                match &outcomes[k] {
                    FileOutcome::Removed => {
                        r.deleted.push(f.path.clone());
                        r.freed = r.freed + f.size;
                    },
                    FileOutcome::NotRemoved(msg) => {
                        r.failed.push((f.path.clone(), msg.clone()));
                    },
                    _ => {},
                }
            }
        }
        proof {
            let want = record_processed(old_r, o, fv[i as int], outs[k as int]);
            assert(r@.deleted =~= want.deleted);
            assert(r@.would_delete =~= want.would_delete);
            assert(r@.compressed =~= want.compressed);
            assert(r@.would_compress =~= want.would_compress);
            assert(r@.failed =~= want.failed);
            assert(r@ == want);
        }
        k = k + 1;
    }
    assert(procs.take(procs.len() as int) =~= procs);
    r
}

/// Sums over a concatenation add up.
pub proof fn lemma_sum_concat(fv: Seq<LogFileInfoView>, a: Seq<int>, b: Seq<int>)
    ensures
        sum_sizes(fv, a + b) == sum_sizes(fv, a) + sum_sizes(fv, b),
    decreases b.len(),
{
    if b.len() == 0 {
        assert(a + b =~= a);
    } else {
        assert((a + b).drop_last() =~= a + b.drop_last());
        lemma_sum_concat(fv, a, b.drop_last());
    }
}

/// The files the size limit evicts, in eviction order.
pub fn size_pass_victims(
    files: &Vec<LogFileInfo>,
    options: &CleanupOptions,
    result: &CleanupResult,
    limit: u64,
) -> (r: Vec<usize>)
    requires
        total_size(files_view(files@), files@.len() as int) <= u64::MAX,
    ensures
        idx_view(r@) == size_pass_files(files_view(files@), options@, result@, limit as nat),
        forall|k: int| 0 <= k < r@.len() ==> r@[k] < files@.len(),
{
    let ghost fv = files_view(files@);
    let ghost o = options@;
    let ghost r1 = result@;
    let n = files.len();
    let ages = ages_vec(files);
    let order = oldest_first_order(&ages);
    let protected = protected_paths(files, options.keep_last);
    proof {
        lemma_oldest_first(ages@);
        assert(idx_view(order@) =~= oldest_first(ages@));
        lemma_order_distinct(fv);
    }
    let ghost ord = idx_view(order@);
    let ghost keep = still_present(fv, o, r1);
    let mut rem: Vec<usize> = Vec::new();
    let mut q: usize = 0;
    assert(ord.take(0).filter(keep) =~= Seq::<int>::empty()) by {
        reveal(Seq::filter);
    }
    assert(idx_view(rem@) =~= Seq::<int>::empty());
    while q < n
        invariant
            n == files@.len(),
            fv == files_view(files@),
            r1 == result@,
            o == options@,
            keep == still_present(fv, o, r1),
            ord == idx_view(order@),
            ord == oldest_first(ages_of(fv)),
            order@.len() == n,
            forall|k: int| 0 <= k < n ==> 0 <= #[trigger] oldest_first(ages_of(fv))[k] < n,
            forall|p: Seq<char>| #[trigger]
                svec_view(protected@).contains(p) <==> is_protected(fv, o.keep_last, p),
            q <= n,
            idx_view(rem@) == ord.take(q as int).filter(keep),
            forall|k: int| 0 <= k < rem@.len() ==> rem@[k] < n,
        decreases n - q,
    {
        let i = order[q];
        assert(ord[q as int] == i as int);
        let path = files[i].path.as_str();
        let stays = !strings_contain(&result.deleted, path) && !strings_contain(
            &result.would_delete,
            path,
        ) && !strings_contain(&protected, path);
        let ghost before = idx_view(rem@);
        proof {
            reveal(Seq::filter);
            assert(ord.take(q + 1).drop_last() =~= ord.take(q as int));
            assert(ord.take(q + 1).last() == i as int);
            assert(fv[i as int] == files@[i as int]@);
        }
        if stays {
            rem.push(i);
            assert(idx_view(rem@) =~= before.push(i as int));
        }
        q = q + 1;
    }
    assert(ord.take(n as int) =~= ord);
    let ghost rs = idx_view(rem@);
    assert(rs == remaining_files(fv, o, r1));
    proof {
        lemma_filter_distinct(ord, keep, n as int);
        lemma_sum_distinct_le(fv, rs, n as int);
    }
    let m = rem.len();
    let mut total: u64 = 0;
    let mut j: usize = 0;
    assert(rs.take(0) =~= Seq::<int>::empty());
    while j < m
        invariant
            m == rem@.len(),
            rs == idx_view(rem@),
            fv == files_view(files@),
            n == files@.len(),
            forall|k: int| 0 <= k < rem@.len() ==> rem@[k] < n,
            sum_sizes(fv, rs) <= u64::MAX,
            j <= m,
            total == sum_sizes(fv, rs.take(j as int)),
        decreases m - j,
    {
        proof {
            assert(rs.take(j + 1).drop_last() =~= rs.take(j as int));
            lemma_sum_prefix_le(fv, rs, j + 1);
            assert(fv[rs[j as int]] == files@[rem@[j as int] as int]@);
        }
        total = total + files[rem[j]].size;
        j = j + 1;
    }
    assert(rs.take(m as int) =~= rs);
    let mut victims: Vec<usize> = Vec::new();
    let mut t: usize = 0;
    let ghost lim = limit as nat;
    assert(victims@.len() == 0);
    assert(rs.skip(0) =~= rs);
    assert(rs.take(m as int) =~= rs);
    while t < m
        invariant_except_break
            m == rem@.len(),
            rs == idx_view(rem@),
            fv == files_view(files@),
            n == files@.len(),
            forall|k: int| 0 <= k < rem@.len() ==> rem@[k] < n,
            t <= m,
            lim == limit as nat,
            total == sum_sizes(fv, rs.skip(t as int)),
            idx_view(victims@) == rs.take(t as int),
            forall|k: int| 0 <= k < victims@.len() ==> victims@[k] < n,
            evict_count(fv, rs, lim) == t + evict_count(fv, rs.skip(t as int), lim),
        ensures
            idx_view(victims@) == rs.take(evict_count(fv, rs, lim) as int),
            forall|k: int| 0 <= k < victims@.len() ==> victims@[k] < n,
        decreases m - t,
    {
        if total <= limit {
            proof {
                assert(evict_count(fv, rs.skip(t as int), lim) == 0);
            }
            break;
        }
        let v = rem[t];
        let ghost before = idx_view(victims@);
        proof {
            let post = rs.skip(t as int);
            assert(post.drop_first() =~= rs.skip(t + 1));
            assert(post[0] == v as int);
            assert(post =~= seq![v as int] + rs.skip(t + 1));
            lemma_sum_concat(fv, seq![v as int], rs.skip(t + 1));
            let one = seq![v as int];
            assert(one.drop_last() =~= Seq::<int>::empty());
            assert(one.last() == v as int);
            assert(sum_sizes(fv, one.drop_last()) == 0);
            assert(sum_sizes(fv, one) == fv[v as int].size as nat);
            assert(sum_sizes(fv, post) == fv[v as int].size + sum_sizes(fv, rs.skip(t + 1)));
            assert(fv[v as int] == files@[v as int]@);
            assert(evict_count(fv, post, lim) == 1 + evict_count(fv, rs.skip(t + 1), lim));
            assert(rs.take(t + 1) =~= rs.take(t as int).push(v as int));
        }
        victims.push(v);
        assert(idx_view(victims@) =~= before.push(v as int));
        total = total - files[v].size;
        t = t + 1;
    }
    proof {
        if t == m {
            assert(rs.skip(m as int) =~= Seq::<int>::empty());
        }
    }
    victims
}

/// The byte counts after evictions grow by at most the evicted sizes.
pub proof fn lemma_size_pass_bounds(
    r1: CleanupResultView,
    fv: Seq<LogFileInfoView>,
    dry_run: bool,
    vs: Seq<int>,
    removed: Seq<FileOutcomeView>,
)
    ensures
        ({
            let r = size_pass_result(r1, fv, dry_run, vs, removed);
            r.freed + r.would_free <= r1.freed + r1.would_free + sum_sizes(fv, vs)
        }),
    decreases vs.len(),
{
    if vs.len() > 0 {
        lemma_size_pass_bounds(r1, fv, dry_run, vs.drop_last(), removed);
    }
}

/// Records the evictions: `victims` in eviction order, and in a real run
/// `removed[k]` is what became of the `k`-th removal.
pub fn apply_size_pass(
    result: &mut CleanupResult,
    files: &Vec<LogFileInfo>,
    victims: &Vec<usize>,
    removed: &Vec<FileOutcome>,
    dry_run: bool,
)
    requires
        forall|k: int| 0 <= k < victims@.len() ==> victims@[k] < files@.len(),
        dry_run || removed@.len() == victims@.len(),
        old(result)@.freed + old(result)@.would_free + sum_sizes(
            files_view(files@),
            idx_view(victims@),
        ) <= u64::MAX,
    ensures
        final(result)@ == size_pass_result(
            old(result)@,
            files_view(files@),
            dry_run,
            idx_view(victims@),
            outcomes_view(removed@),
        ),
{
    let ghost fv = files_view(files@);
    let ghost vs = idx_view(victims@);
    let ghost outs = outcomes_view(removed@);
    let ghost r1 = result@;
    let mut k: usize = 0;
    assert(vs.take(0) =~= Seq::<int>::empty());
    while k < victims.len()
        invariant
            fv == files_view(files@),
            vs == idx_view(victims@),
            forall|j: int| 0 <= j < victims@.len() ==> victims@[j] < files@.len(),
            dry_run || removed@.len() == victims@.len(),
            r1.freed + r1.would_free + sum_sizes(fv, vs) <= u64::MAX,
            k <= victims@.len(),
            outs == outcomes_view(removed@),
            result@ == size_pass_result(r1, fv, dry_run, vs.take(k as int), outs),
        decreases victims@.len() - k,
    {
        let i = victims[k];
        let f = &files[i];
        let ghost old_r = result@;
        proof {
            assert(vs.take(k + 1).drop_last() =~= vs.take(k as int));
            assert(vs.take(k + 1).last() == i as int);
            lemma_size_pass_bounds(r1, fv, dry_run, vs.take(k + 1), outs);
            lemma_sum_prefix_le(fv, vs, k + 1);
            assert(fv[i as int] == f@);
        }
        if dry_run {
            result.would_delete.push(f.path.clone());
            result.would_free = result.would_free + f.size;
        } else {
            assert(outs[k as int] == removed@[k as int]@);
            match &removed[k] {
                FileOutcome::Removed => {
                    result.deleted.push(f.path.clone());
                    result.freed = result.freed + f.size;
                },
                FileOutcome::NotRemoved(msg) => {
                    result.failed.push((f.path.clone(), msg.clone()));
                },
                _ => {},
            }
        }
        proof {
            let want = record_evicted(old_r, dry_run, fv[i as int], outs[k as int]);
            assert(result@.deleted =~= want.deleted);
            assert(result@.would_delete =~= want.would_delete);
            assert(result@.failed =~= want.failed);
            assert(result@ == want);
        }
        k = k + 1;
    }
    assert(vs.take(vs.len() as int) =~= vs);
}

/// What a whole cleanup run decides, given what happened to each processed
/// file (`outs`) and to each eviction (`removed`); a dry run ignores both.
pub open spec fn spec_cleanup_result(
    fv: Seq<LogFileInfoView>,
    o: CleanupOptionsView,
    outs: Seq<FileOutcomeView>,
    removed: Seq<FileOutcomeView>,
) -> CleanupResultView {
    let r1 = first_pass_result(empty_result(), fv, o, first_pass_files(fv, o), outs);
    if size_pass_applies(o) {
        size_pass_result(
            r1,
            fv,
            o.dry_run,
            size_pass_files(fv, o, r1, o.max_total_size.unwrap() as nat),
            removed,
        )
    } else {
        r1
    }
}

/// In a dry run that deletes, the first pass lists every processed file for
/// deletion and counts all of their sizes.
pub proof fn lemma_dry_first_pass(
    fv: Seq<LogFileInfoView>,
    o: CleanupOptionsView,
    procs: Seq<int>,
    outs: Seq<FileOutcomeView>,
)
    requires
        o.dry_run,
        !o.compress,
    ensures
        ({
            let r = first_pass_result(empty_result(), fv, o, procs, outs);
            &&& r.freed == 0
            &&& r.would_free == sum_sizes(fv, procs)
            &&& forall|x: int| procs.contains(x) ==> r.would_delete.contains(fv[x].path)
        }),
    decreases procs.len(),
{
    if procs.len() > 0 {
        let init = procs.drop_last();
        lemma_dry_first_pass(fv, o, init, outs);
        let r0 = first_pass_result(empty_result(), fv, o, init, outs);
        let r = first_pass_result(empty_result(), fv, o, procs, outs);
        assert(r.would_delete == r0.would_delete.push(fv[procs.last()].path));
        assert forall|x: int| procs.contains(x) implies r.would_delete.contains(fv[x].path) by {
            let k = choose|k: int| 0 <= k < procs.len() && procs[k] == x;
            if k < procs.len() - 1 {
                assert(init[k] == x);
                assert(init.contains(x));
                let t = choose|t: int| 0 <= t < r0.would_delete.len() && r0.would_delete[t] == fv[x].path;
                assert(r.would_delete[t] == fv[x].path);
            } else {
                assert(r.would_delete[r0.would_delete.len() as int] == fv[x].path);
            }
        }
    }
}

/// A prefix of a duplicate-free list in range is duplicate-free, in range,
/// and made of entries of the list.
pub proof fn lemma_take_prefix(s: Seq<int>, t: int, n: int)
    requires
        s.no_duplicates(),
        in_range(s, n),
        0 <= t <= s.len(),
    ensures
        s.take(t).no_duplicates(),
        in_range(s.take(t), n),
        forall|x: int| s.take(t).contains(x) ==> s.contains(x),
{
    let v = s.take(t);
    assert forall|x: int| v.contains(x) implies s.contains(x) by {
        let k = choose|k: int| 0 <= k < v.len() && v[k] == x;
        assert(s[k] == x);
    }
    assert forall|a: int, b: int| 0 <= a < v.len() && 0 <= b < v.len() && a != b implies v[a]
        != v[b] by {
        assert(v[a] == s[a]);
        assert(v[b] == s[b]);
    }
    assert forall|k: int| 0 <= k < v.len() implies 0 <= #[trigger] v[k] < n by {
        assert(v[k] == s[k]);
    }
}

/// A dry run decided in full: nothing is touched, so no outcomes are needed.
pub fn dry_run_cleanup(files: &Vec<LogFileInfo>, options: &CleanupOptions) -> (r: CleanupResult)
    requires
        options@.dry_run,
        total_size(files_view(files@), files@.len() as int) <= u64::MAX,
    ensures
        r@ == spec_cleanup_result(files_view(files@), options@, Seq::empty(), Seq::empty()),
{
    let ghost fv = files_view(files@);
    let ghost o = options@;
    let plan = plan_cleanup(files, options);
    proof {
        lemma_order_distinct(fv);
        lemma_filter_distinct(oldest_first(ages_of(fv)), selected(fv, o), fv.len() as int);
    }
    let no_outcomes: Vec<FileOutcome> = Vec::new();
    assert(outcomes_view(no_outcomes@) =~= Seq::<FileOutcomeView>::empty());
    let mut result = apply_first_pass(files, options, &plan.process, &no_outcomes);
    if !options.compress {
        if let Some(limit) = options.max_total_size {
            let victims = size_pass_victims(files, options, &result, limit);
            let no_removals: Vec<FileOutcome> = Vec::new();
            assert(outcomes_view(no_removals@) =~= Seq::<FileOutcomeView>::empty());
            proof {
                let procs = first_pass_files(fv, o);
                let r1 = result@;
                let rem = remaining_files(fv, o, r1);
                let vs = idx_view(victims@);
                lemma_dry_first_pass(fv, o, procs, Seq::empty());
                lemma_filter_distinct(oldest_first(ages_of(fv)), still_present(fv, o, r1), fv.len() as int);
                crate::cleanup::plan::lemma_evict_count_bound(fv, rem, limit as nat);
                lemma_take_prefix(rem, evict_count(fv, rem, limit as nat) as int, fv.len() as int);
                assert forall|a: int, b: int| 0 <= a < procs.len() && 0 <= b < vs.len() implies procs[a]
                    != vs[b] by {
                    assert(vs.contains(vs[b]));
                    assert(rem.contains(vs[b]));
                    assert(procs.contains(procs[a]));
                    assert(r1.would_delete.contains(fv[procs[a]].path));
                }
                vstd::seq_lib::lemma_no_dup_in_concat(procs, vs);
                lemma_sum_concat(fv, procs, vs);
                assert(in_range(procs + vs, fv.len() as int)) by {
                    assert forall|k: int| 0 <= k < (procs + vs).len() implies 0 <= #[trigger] (procs
                        + vs)[k] < fv.len() by {
                        if k < procs.len() {
                            assert((procs + vs)[k] == procs[k]);
                        } else {
                            assert((procs + vs)[k] == vs[k - procs.len()]);
                        }
                    }
                }
                crate::cleanup::plan::lemma_sum_distinct_le(fv, procs + vs, fv.len() as int);
            }
            apply_size_pass(&mut result, files, &victims, &no_removals, true);
        }
    }
    result
}

} // verus!
