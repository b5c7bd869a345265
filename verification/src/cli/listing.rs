//! The preset listing: presets grouped by application, the groups and the
//! names within each group in text order.
use crate::cleanup::report::{raw_record, records_view};
use crate::cli::preset::PresetRunner;
use crate::config::Config;
use crate::config::structs::PresetConfigView;
use crate::level::Level;
use crate::logger::{LogRecord, LogRecordView, Logger, spec_record};
use crate::text::{chars_eq, chars_of, copy_chars, opt_view, push_chars, push_str, string_of, svec_view};
use vstd::prelude::*;
use vstd::relations::{sorted_by, total_ordering};

verus! {

/// Text order on character sequences: lexicographic by code point, a prefix
/// before its extensions. It is the order of `str` (which compares UTF-8
/// bytes, an encoding that keeps code point order).
pub open spec fn text_le(a: Seq<char>, b: Seq<char>) -> bool
    decreases a.len(),
{
    if a.len() == 0 {
        true
    } else if b.len() == 0 {
        false
    } else if a[0] != b[0] {
        a[0] < b[0]
    } else {
        text_le(a.drop_first(), b.drop_first())
    }
}

/// A (group, name) pair precedes another when its group comes first, or the
/// groups are the same and its name comes first.
pub open spec fn entry_le(x: (Seq<char>, Seq<char>), y: (Seq<char>, Seq<char>)) -> bool {
    if x.0 == y.0 {
        text_le(x.1, y.1)
    } else {
        text_le(x.0, y.0)
    }
}

/// The order of listed entries, as a relation.
pub open spec fn entry_order() -> spec_fn((Seq<char>, Seq<char>), (Seq<char>, Seq<char>)) -> bool {
    |x: (Seq<char>, Seq<char>), y: (Seq<char>, Seq<char>)| entry_le(x, y)
}

proof fn lemma_text_le_refl(a: Seq<char>)
    ensures
        text_le(a, a),
    decreases a.len(),
{
    if a.len() > 0 {
        lemma_text_le_refl(a.drop_first());
    }
}

proof fn lemma_text_le_antisym(a: Seq<char>, b: Seq<char>)
    requires
        text_le(a, b),
        text_le(b, a),
    ensures
        a == b,
    decreases a.len(),
{
    if a.len() == 0 {
        assert(a =~= b);
    } else {
        lemma_text_le_antisym(a.drop_first(), b.drop_first());
        assert forall|i: int| 0 <= i < a.len() implies a[i] == b[i] by {
            if i > 0 {
                assert(a[i] == a.drop_first()[i - 1]);
                assert(b[i] == b.drop_first()[i - 1]);
            }
        }
        assert(a =~= b);
    }
}

proof fn lemma_text_le_trans(a: Seq<char>, b: Seq<char>, c: Seq<char>)
    requires
        text_le(a, b),
        text_le(b, c),
    ensures
        text_le(a, c),
    decreases a.len(),
{
    if a.len() > 0 && a[0] == b[0] && b[0] == c[0] {
        lemma_text_le_trans(a.drop_first(), b.drop_first(), c.drop_first());
    }
}

proof fn lemma_text_le_total(a: Seq<char>, b: Seq<char>)
    ensures
        text_le(a, b) || text_le(b, a),
    decreases a.len(),
{
    if a.len() > 0 && b.len() > 0 && a[0] == b[0] {
        lemma_text_le_total(a.drop_first(), b.drop_first());
    }
}

/// The order of listed entries is a total order.
pub proof fn lemma_entry_order_total()
    ensures
        total_ordering(entry_order()),
{
    let r = entry_order();
    assert forall|x: (Seq<char>, Seq<char>)| #[trigger] r(x, x) by {
        lemma_text_le_refl(x.1);
    }
    assert forall|x: (Seq<char>, Seq<char>), y: (Seq<char>, Seq<char>)|
        #[trigger] r(x, y) && #[trigger] r(y, x) implies x == y by {
        if x.0 == y.0 {
            lemma_text_le_antisym(x.1, y.1);
        } else {
            lemma_text_le_antisym(x.0, y.0);
        }
    }
    assert forall|x: (Seq<char>, Seq<char>), y: (Seq<char>, Seq<char>), z: (Seq<char>, Seq<char>)|
        #[trigger] r(x, y) && #[trigger] r(y, z) implies r(x, z) by {
        if x.0 == y.0 && y.0 == z.0 {
            lemma_text_le_trans(x.1, y.1, z.1);
        } else if x.0 != y.0 && y.0 != z.0 {
            lemma_text_le_trans(x.0, y.0, z.0);
            if x.0 == z.0 {
                lemma_text_le_antisym(x.0, y.0);
            }
        }
    }
    assert forall|x: (Seq<char>, Seq<char>), y: (Seq<char>, Seq<char>)|
        #[trigger] r(x, y) || #[trigger] r(y, x) by {
        if x.0 == y.0 {
            lemma_text_le_total(x.1, y.1);
        } else {
            lemma_text_le_total(x.0, y.0);
        }
    }
}

/// Text order of two character vectors.
fn chars_le(a: &Vec<char>, b: &Vec<char>) -> (r: bool)
    ensures
        r == text_le(a@, b@),
{
    let mut i: usize = 0;
    assert(a@.skip(0) =~= a@);
    assert(b@.skip(0) =~= b@);
    while i < a.len() && i < b.len()
        invariant
            i <= a@.len(),
            i <= b@.len(),
            text_le(a@, b@) == text_le(a@.skip(i as int), b@.skip(i as int)),
        decreases a@.len() - i,
    {
        assert(a@.skip(i as int)[0] == a@[i as int]);
        assert(b@.skip(i as int)[0] == b@[i as int]);
        if a[i] != b[i] {
            return a[i] < b[i];
        }
        assert(a@.skip(i as int).drop_first() =~= a@.skip(i + 1));
        assert(b@.skip(i as int).drop_first() =~= b@.skip(i + 1));
        i = i + 1;
    }
    i == a.len()
}

/// Whether one (group, name) pair precedes another.
fn entry_before(x: &(Vec<char>, Vec<char>), y: &(Vec<char>, Vec<char>)) -> (r: bool)
    ensures
        r == entry_le((x.0@, x.1@), (y.0@, y.1@)),
{
    if chars_eq(&x.0, &y.0) {
        chars_le(&x.1, &y.1)
    } else {
        chars_le(&x.0, &y.0)
    }
}

/// The (group, name) views of a list of pairs.
pub open spec fn pair_views(v: Seq<(Vec<char>, Vec<char>)>) -> Seq<(Seq<char>, Seq<char>)> {
    v.map_values(|p: (Vec<char>, Vec<char>)| (p.0@, p.1@))
}

/// Sorts (group, name) pairs into text order.
fn sort_pairs(v: &Vec<(Vec<char>, Vec<char>)>) -> (r: Vec<(Vec<char>, Vec<char>)>)
    ensures
        sorted_by(pair_views(r@), entry_order()),
        pair_views(r@).to_multiset() == pair_views(v@).to_multiset(),
{
    proof {
        lemma_entry_order_total();
    }
    let mut out: Vec<(Vec<char>, Vec<char>)> = Vec::new();
    let mut i: usize = 0;
    assert(pair_views(v@).take(0) =~= Seq::<(Seq<char>, Seq<char>)>::empty());
    assert(pair_views(out@) =~= Seq::<(Seq<char>, Seq<char>)>::empty());
    while i < v.len()
        invariant
            i <= v@.len(),
            total_ordering(entry_order()),
            sorted_by(pair_views(out@), entry_order()),
            pair_views(out@).to_multiset() == pair_views(v@).take(i as int).to_multiset(),
        decreases v@.len() - i,
    {
        let e = (copy_chars(&v[i].0), copy_chars(&v[i].1));
        let ghost ev = (e.0@, e.1@);
        let ghost s = pair_views(out@);
        assert(ev == pair_views(v@)[i as int]);
        let mut p: usize = 0;
        while p < out.len() && entry_before(&out[p], &e)
            invariant
                p <= out@.len(),
                s == pair_views(out@),
                ev == (e.0@, e.1@),
                forall|k: int| 0 <= k < p ==> entry_le(#[trigger] s[k], ev),
            decreases out@.len() - p,
        {
            assert(s[p as int] == (out@[p as int].0@, out@[p as int].1@));
            p = p + 1;
        }
        proof {
            if p < s.len() {
                assert(s[p as int] == (out@[p as int].0@, out@[p as int].1@));
                assert(!entry_le(s[p as int], ev));
                assert(entry_order()(s[p as int], ev) || entry_order()(ev, s[p as int]));
                assert(entry_le(ev, s[p as int]));
            }
        }
        out.insert(p, e);
        proof {
            let n = pair_views(out@);
            let ord = entry_order();
            assert(n =~= s.insert(p as int, ev));
            assert forall|a: int, b: int| 0 <= a < b < n.len() implies #[trigger] ord(n[a], n[b]) by {
                if b < p {
                    assert(ord(s[a], s[b]));
                } else if b == p {
                    assert(entry_le(s[a], ev));
                } else if a < p {
                    assert(ord(s[a], s[b - 1]));
                } else if a == p {
                    if p < b - 1 {
                        assert(ord(s[p as int], s[b - 1]));
                    }
                    assert(ord(ev, s[p as int]));
                } else {
                    assert(ord(s[a - 1], s[b - 1]));
                }
            }
            assert(pair_views(v@).take(i + 1) =~= pair_views(v@).take(i as int).push(ev));
            vstd::seq_lib::to_multiset_insert(s, p as int, ev);
            vstd::seq_lib::to_multiset_build(pair_views(v@).take(i as int), ev);
        }
        i = i + 1;
    }
    assert(pair_views(v@).take(v@.len() as int) =~= pair_views(v@));
    out
}

/// The group a preset is listed under: its application, or `general`.
pub open spec fn group_of(app: Option<Seq<char>>) -> Seq<char> {
    match app {
        Some(a) => a,
        None => "general"@,
    }
}

/// The line that opens a group.
pub open spec fn group_header(group: Seq<char>) -> Seq<char> {
    "  ["@ + group + "]"@
}

/// The line for one preset.
pub open spec fn preset_line(name: Seq<char>) -> Seq<char> {
    "    "@ + name
}

/// The lines for (group, name) pairs in order: a header where a group starts,
/// then a line per name.
pub open spec fn listing_lines(s: Seq<(Seq<char>, Seq<char>)>) -> Seq<Seq<char>>
    decreases s.len(),
{
    if s.len() == 0 {
        Seq::empty()
    } else {
        let e = s.last();
        let head = if s.len() == 1 || s[s.len() - 2].0 != e.0 {
            seq![group_header(e.0)]
        } else {
            Seq::empty()
        };
        listing_lines(s.drop_last()) + head + seq![preset_line(e.1)]
    }
}

/// Whether `s` lists the presets of `m`: each preset once, as its (group,
/// name) pair, in text order.
pub open spec fn lists_presets(s: Seq<(Seq<char>, Seq<char>)>, m: Map<Seq<char>, PresetConfigView>) -> bool {
    &&& sorted_by(s, entry_order())
    &&& s.no_duplicates()
    &&& forall|e: (Seq<char>, Seq<char>)|
        #[trigger] s.contains(e) <==> m.contains_key(e.1) && e.0 == group_of(m[e.1].app_name)
}

/// The presets of `m` as (group, name) pairs in listing order.
pub open spec fn presets_in_order(m: Map<Seq<char>, PresetConfigView>) -> Seq<(Seq<char>, Seq<char>)> {
    choose|s: Seq<(Seq<char>, Seq<char>)>| lists_presets(s, m)
}

/// The presets of a map are listed in one way only.
pub proof fn lemma_listing_unique(
    s: Seq<(Seq<char>, Seq<char>)>,
    t: Seq<(Seq<char>, Seq<char>)>,
    m: Map<Seq<char>, PresetConfigView>,
)
    requires
        lists_presets(s, m),
        lists_presets(t, m),
    ensures
        s == t,
{
    broadcast use vstd::seq_lib::group_to_multiset_ensures;

    lemma_entry_order_total();
    s.lemma_multiset_has_no_duplicates();
    t.lemma_multiset_has_no_duplicates();
    assert forall|x: (Seq<char>, Seq<char>)| s.to_multiset().count(x) == t.to_multiset().count(x) by {
        if s.contains(x) {
            assert(t.contains(x));
            assert(s.to_multiset().contains(x));
            assert(t.to_multiset().contains(x));
        } else {
            assert(!t.contains(x));
        }
    }
    assert(s.to_multiset() =~= t.to_multiset());
    vstd::seq_lib::lemma_sorted_unique(s, t, entry_order());
}

/// The records the preset listing prints: `No presets defined`, or
/// `Available presets:` followed by the listing as raw lines.
pub open spec fn presets_report(m: Map<Seq<char>, PresetConfigView>, app: Option<Seq<char>>) -> Seq<LogRecordView> {
    if m.len() == 0 {
        seq![spec_record(Level::Info, "PRESETS"@, "No presets defined"@, None, app)]
    } else {
        seq![spec_record(Level::Info, "PRESETS"@, "Available presets:"@, None, app)]
            + listing_lines(presets_in_order(m)).map_values(|l: Seq<char>| raw_record(l))
    }
}

/// The lines for sorted (group, name) pairs.
fn listing_of(sorted: &Vec<(Vec<char>, Vec<char>)>) -> (r: Vec<String>)
    ensures
        svec_view(r@) == listing_lines(pair_views(sorted@)),
{
    let mut out: Vec<String> = Vec::new();
    let ghost pv = pair_views(sorted@);
    let mut i: usize = 0;
    assert(pv.take(0) =~= Seq::<(Seq<char>, Seq<char>)>::empty());
    assert(svec_view(out@) =~= Seq::<Seq<char>>::empty());
    while i < sorted.len()
        invariant
            i <= sorted@.len(),
            pv == pair_views(sorted@),
            svec_view(out@) == listing_lines(pv.take(i as int)),
        decreases sorted@.len() - i,
    {
        let ghost before = svec_view(out@);
        let starts = i == 0 || !chars_eq(&sorted[i - 1].0, &sorted[i].0);
        if starts {
            let mut h: Vec<char> = Vec::new();
            push_str(&mut h, "  [");
            push_chars(&mut h, &sorted[i].0);
            push_str(&mut h, "]");
            out.push(string_of(&h));
        }
        let mut l: Vec<char> = Vec::new();
        push_str(&mut l, "    ");
        push_chars(&mut l, &sorted[i].1);
        out.push(string_of(&l));
        proof {
            let t = pv.take(i + 1);
            assert(t.drop_last() =~= pv.take(i as int));
            assert(pv[i as int] == (sorted@[i as int].0@, sorted@[i as int].1@));
            if i > 0 {
                assert(pv[i - 1] == (sorted@[i - 1].0@, sorted@[i - 1].1@));
                assert(t[t.len() - 2] == pv[i - 1]);
            }
            assert(svec_view(out@) =~= listing_lines(t));
        }
        i = i + 1;
    }
    assert(pv.take(pv.len() as int) =~= pv);
    out
}

/// Lists the presets of a configuration: grouped by application (`general`
/// for those without one), the groups and the names in each in text order.
pub fn cmd_presets(config: &Config, logger: &Logger) -> (r: Vec<LogRecord>)
    ensures
        records_view(r@) == presets_report(config@.presets, logger@.app_name),
{
    let runner = PresetRunner::new(config, logger);
    let list = runner.list();
    let ghost m = config@.presets;
    let mut out: Vec<LogRecord> = Vec::new();
    if list.len() == 0 {
        out.push(logger.print("PRESETS", "No presets defined"));
        assert(records_view(out@) =~= presets_report(m, logger@.app_name));
        return out;
    }
    out.push(logger.print("PRESETS", "Available presets:"));
    let mut v: Vec<(Vec<char>, Vec<char>)> = Vec::new();
    let mut i: usize = 0;
    while i < list.len()
        invariant
            i <= list@.len(),
            v@.len() == i,
            forall|k: int| 0 <= k < i ==> #[trigger] pair_views(v@)[k] == (group_of(opt_view(list@[k].1)), list@[k].0@),
        decreases list@.len() - i,
    {
        let g = match &list[i].1 {
            Some(a) => chars_of(a.as_str()),
            None => chars_of("general"),
        };
        let n = chars_of(list[i].0.as_str());
        assert(g@ == group_of(opt_view(list@[i as int].1)));
        let ghost old_v = v@;
        v.push((g, n));
        proof {
            assert forall|k: int| 0 <= k < i + 1 implies #[trigger] pair_views(v@)[k] == (group_of(opt_view(list@[k].1)), list@[k].0@) by {
                assert(pair_views(v@)[k] == (v@[k].0@, v@[k].1@));
                if k < i {
                    assert(v@[k] == old_v[k]);
                    assert(pair_views(old_v)[k] == (old_v[k].0@, old_v[k].1@));
                }
            }
        }
        i = i + 1;
    }
    let sorted = sort_pairs(&v);
    let lines = listing_of(&sorted);
    proof {
        let w = pair_views(v@);
        let ps = pair_views(sorted@);
        broadcast use vstd::seq_lib::group_to_multiset_ensures;

        assert forall|e: (Seq<char>, Seq<char>)|
            #[trigger] ps.contains(e) <==> m.contains_key(e.1) && e.0 == group_of(m[e.1].app_name) by {
            assert(ps.contains(e) <==> ps.to_multiset().count(e) > 0);
            assert(w.contains(e) <==> w.to_multiset().count(e) > 0);
            if w.contains(e) {
                let k = choose|k: int| 0 <= k < w.len() && w[k] == e;
                assert(m.contains_key(list@[k].0@));
            }
            if m.contains_key(e.1) && e.0 == group_of(m[e.1].app_name) {
                let k = choose|k: int| 0 <= k < list@.len() && list@[k].0@ == e.1;
                assert(w[k] == e);
            }
        }
        assert(w.no_duplicates()) by {
            assert forall|a: int, b: int| 0 <= a < w.len() && 0 <= b < w.len() && a != b implies w[a] != w[b] by {
                if a < b {
                    assert(list@[a].0@ != list@[b].0@);
                } else {
                    assert(list@[b].0@ != list@[a].0@);
                }
            }
        }
        w.lemma_multiset_has_no_duplicates();
        ps.lemma_multiset_has_no_duplicates_conv();
        assert(lists_presets(ps, m));
        lemma_listing_unique(presets_in_order(m), ps, m);
    }
    let ghost head = records_view(out@);
    let ghost lv = svec_view(lines@);
    let ghost g = |l: Seq<char>| raw_record(l);
    let mut j: usize = 0;
    assert(lv.take(0).map_values(g) =~= Seq::<LogRecordView>::empty());
    while j < lines.len()
        invariant
            j <= lines@.len(),
            lv == svec_view(lines@),
            g == (|l: Seq<char>| raw_record(l)),
            records_view(out@) == head + lv.take(j as int).map_values(g),
        decreases lines@.len() - j,
    {
        let ghost before = records_view(out@);
        out.push(logger.raw(lines[j].as_str()));
        proof {
            assert(lv[j as int] == lines@[j as int]@);
            assert(lv.take(j + 1).map_values(g) =~= lv.take(j as int).map_values(g).push(g(lv[j as int])));
            assert(records_view(out@) =~= before.push(g(lv[j as int])));
        }
        j = j + 1;
    }
    assert(lv.take(lv.len() as int) =~= lv);
    assert(records_view(out@) =~= presets_report(m, logger@.app_name));
    out
}

} // verus!
