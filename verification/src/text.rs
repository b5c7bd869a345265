//! Character-level text helpers shared by the formatting and parsing code.
//!
//! Strings are handled as sequences of Unicode scalar values; the spec functions
//! here describe the standard-library string operations that the library relies on.
use vstd::prelude::*;

verus! {

// ---------------------------------------------------------------------------
// Conversions between strings and character vectors
// ---------------------------------------------------------------------------

/// Collects the characters of a string slice.
pub fn chars_of(s: &str) -> (r: Vec<char>)
    ensures
        r@ == s@,
{
    let mut r: Vec<char> = Vec::new();
    for c in it: s.chars()
        invariant
            r@ == it.seq().take(it.index() as int),
    {
        r.push(c);
    }
    r
}

/// Builds an owned string from a sequence of characters (`FromIterator<char>` for `String`).
#[verifier::external_body]
pub(crate) fn string_of(v: &Vec<char>) -> (r: String)
    ensures
        r@ == v@,
{
    v.iter().collect()
}

/// The concatenation of two strings.
pub fn joined(a: &str, b: &str) -> (r: String)
    ensures
        r@ == a@ + b@,
{
    let mut v: Vec<char> = Vec::new();
    push_str(&mut v, a);
    push_str(&mut v, b);
    string_of(&v)
}

/// Copies a string slice into an owned string.
pub fn owned(s: &str) -> (r: String)
    ensures
        r@ == s@,
{
    let v = chars_of(s);
    string_of(&v)
}

/// Appends the characters of `s` to `v`.
pub fn push_str(v: &mut Vec<char>, s: &str)
    ensures
        final(v)@ == old(v)@ + s@,
{
    for c in it: s.chars()
        invariant
            v@ == old(v)@ + it.seq().take(it.index() as int),
    {
        v.push(c);
    }
}

/// Appends the characters of `w` to `v`.
pub fn push_chars(v: &mut Vec<char>, w: &Vec<char>)
    ensures
        final(v)@ == old(v)@ + w@,
{
    let mut i: usize = 0;
    while i < w.len()
        invariant
            i <= w@.len(),
            v@ == old(v)@ + w@.take(i as int),
        decreases w@.len() - i,
    {
        v.push(w[i]);
        i = i + 1;
        assert(w@.take(i as int) == w@.take(i - 1).push(w@[i - 1]));
    }
    assert(w@.take(w@.len() as int) == w@);
}

/// A copy of a character vector.
pub fn copy_chars(v: &Vec<char>) -> (r: Vec<char>)
    ensures
        r@ == v@,
{
    let r = slice_chars(v, 0, v.len());
    assert(v@.subrange(0, v@.len() as int) =~= v@);
    r
}

/// The characters of `v` between `from` (inclusive) and `to` (exclusive).
pub fn slice_chars(v: &Vec<char>, from: usize, to: usize) -> (r: Vec<char>)
    requires
        from <= to <= v@.len(),
    ensures
        r@ == v@.subrange(from as int, to as int),
{
    let mut r: Vec<char> = Vec::new();
    let mut i: usize = from;
    while i < to
        invariant
            from <= i <= to <= v@.len(),
            r@ == v@.subrange(from as int, i as int),
        decreases to - i,
    {
        r.push(v[i]);
        i = i + 1;
        assert(v@.subrange(from as int, i as int) == v@.subrange(from as int, i - 1).push(
            v@[i - 1],
        ));
    }
    r
}

/// The characters of `v` between `from` and `to`, as an owned string.
pub fn substring(v: &Vec<char>, from: usize, to: usize) -> (r: String)
    requires
        from <= to <= v@.len(),
    ensures
        r@ == v@.subrange(from as int, to as int),
{
    let w = slice_chars(v, from, to);
    string_of(&w)
}

/// Whether two character sequences are equal.
pub fn chars_eq(a: &Vec<char>, b: &Vec<char>) -> (r: bool)
    ensures
        r == (a@ == b@),
{
    if a.len() != b.len() {
        return false;
    }
    let mut i: usize = 0;
    while i < a.len()
        invariant
            a@.len() == b@.len(),
            i <= a@.len(),
            forall|j: int| 0 <= j < i ==> a@[j] == b@[j],
        decreases a@.len() - i,
    {
        if a[i] != b[i] {
            return false;
        }
        i = i + 1;
    }
    assert(a@ =~= b@);
    true
}

/// Whether a character vector spells the string slice `b`.
pub fn chars_eq_str(a: &Vec<char>, b: &str) -> (r: bool)
    ensures
        r == (a@ == b@),
{
    let bv = chars_of(b);
    chars_eq(a, &bv)
}

/// Whether two string slices hold the same characters.
pub fn str_eq(a: &str, b: &str) -> (r: bool)
    ensures
        r == (a@ == b@),
{
    let av = chars_of(a);
    let bv = chars_of(b);
    chars_eq(&av, &bv)
}

/// A copy of an owned string.
pub fn copy_string(s: &String) -> (r: String)
    ensures
        r@ == s@,
{
    s.clone()
}

/// A copy of an optional owned string.
pub fn copy_opt_string(s: &Option<String>) -> (r: Option<String>)
    ensures
        opt_view(r) == opt_view(*s),
{
    match s {
        Some(x) => Some(x.clone()),
        None => None,
    }
}

/// The view of an optional string.
pub open spec fn opt_view(s: Option<String>) -> Option<Seq<char>> {
    match s {
        Some(x) => Some(x@),
        None => None,
    }
}

/// The views of a list of strings.
pub open spec fn svec_view(v: Seq<String>) -> Seq<Seq<char>> {
    v.map_values(|x: String| x@)
}

/// The view of an optional list of strings.
pub open spec fn opt_svec_view(v: Option<Vec<String>>) -> Option<Seq<Seq<char>>> {
    match v {
        Some(x) => Some(svec_view(x@)),
        None => None,
    }
}

/// A copy of a list of strings.
pub fn copy_strings(v: &Vec<String>) -> (r: Vec<String>)
    ensures
        svec_view(r@) == svec_view(v@),
{
    let mut r: Vec<String> = Vec::new();
    let mut i: usize = 0;
    while i < v.len()
        invariant
            i <= v@.len(),
            svec_view(r@) == svec_view(v@.take(i as int)),
        decreases v@.len() - i,
    {
        r.push(v[i].clone());
        i = i + 1;
        assert(svec_view(v@.take(i as int)) =~= svec_view(v@.take(i - 1)).push(v@[i - 1]@));
        assert(svec_view(r@) =~= svec_view(v@.take(i as int)));
    }
    assert(v@.take(v@.len() as int) =~= v@);
    r
}

/// A copy of an optional list of strings.
pub fn copy_opt_strings(v: &Option<Vec<String>>) -> (r: Option<Vec<String>>)
    ensures
        opt_svec_view(r) == opt_svec_view(*v),
{
    match v {
        Some(x) => Some(copy_strings(x)),
        None => None,
    }
}

/// Whether some element of a list of strings equals `s`.
pub fn strings_contain(v: &Vec<String>, s: &str) -> (r: bool)
    ensures
        r == svec_view(v@).contains(s@),
{
    let mut i: usize = 0;
    while i < v.len()
        invariant
            i <= v@.len(),
            forall|j: int| 0 <= j < i ==> v@[j]@ != s@,
        decreases v@.len() - i,
    {
        if str_eq(v[i].as_str(), s) {
            assert(svec_view(v@)[i as int] == s@);
            return true;
        }
        i = i + 1;
    }
    assert(!svec_view(v@).contains(s@)) by {
        if svec_view(v@).contains(s@) {
            let j = choose|j: int| 0 <= j < svec_view(v@).len() && svec_view(v@)[j] == s@;
            assert(v@[j]@ == s@);
        }
    }
    false
}

// ---------------------------------------------------------------------------
// Searching
// ---------------------------------------------------------------------------

/// Index of the first `c` in `s` at or after `from`.
pub open spec fn find_char_from(s: Seq<char>, c: char, from: int) -> Option<int>
    decreases s.len() - from,
{
    if from < 0 || from >= s.len() {
        None
    } else if s[from] == c {
        Some(from)
    } else {
        find_char_from(s, c, from + 1)
    }
}

/// Facts about the result of `find_char_from`.
pub proof fn lemma_find_char_from(s: Seq<char>, c: char, from: int)
    requires
        0 <= from,
    ensures
        match find_char_from(s, c, from) {
            Some(k) => from <= k < s.len() && s[k] == c && forall|j: int|
                from <= j < k ==> s[j] != c,
            None => forall|j: int| from <= j < s.len() ==> s[j] != c,
        },
    decreases s.len() - from,
{
    if from < s.len() && s[from] != c {
        lemma_find_char_from(s, c, from + 1);
    }
}

/// Finds the first `c` in `v` at or after `from`.
pub fn find_char(v: &Vec<char>, c: char, from: usize) -> (r: Option<usize>)
    ensures
        r matches Some(k) ==> from <= k < v@.len() && v@[k as int] == c,
        match r {
            Some(k) => find_char_from(v@, c, from as int) == Some(k as int),
            None => find_char_from(v@, c, from as int) is None,
        },
{
    let mut i = from;
    while i < v.len()
        invariant
            from <= i,
            find_char_from(v@, c, from as int) == find_char_from(v@, c, i as int),
        decreases v@.len() - i,
    {
        if v[i] == c {
            return Some(i);
        }
        i = i + 1;
    }
    None
}

/// Whether `pat` occurs in `s` starting at index `at`.
pub open spec fn occurs_at(s: Seq<char>, pat: Seq<char>, at: int) -> bool {
    0 <= at && at + pat.len() <= s.len() && s.subrange(at, at + pat.len()) == pat
}

/// Index of the first occurrence of `pat` in `s` at or after `from`.
pub open spec fn find_sub_from(s: Seq<char>, pat: Seq<char>, from: int) -> Option<int>
    decreases s.len() + 1 - from,
{
    if from < 0 || from + pat.len() > s.len() {
        None
    } else if occurs_at(s, pat, from) {
        Some(from)
    } else {
        find_sub_from(s, pat, from + 1)
    }
}

/// Facts about the result of `find_sub_from`.
pub proof fn lemma_find_sub_from(s: Seq<char>, pat: Seq<char>, from: int)
    requires
        0 <= from,
    ensures
        match find_sub_from(s, pat, from) {
            Some(k) => from <= k && occurs_at(s, pat, k) && forall|j: int|
                from <= j < k ==> !occurs_at(s, pat, j),
            None => forall|j: int| from <= j ==> !occurs_at(s, pat, j),
        },
    decreases s.len() + 1 - from,
{
    if from + pat.len() <= s.len() && !occurs_at(s, pat, from) {
        lemma_find_sub_from(s, pat, from + 1);
    }
}

/// Whether `pat` occurs in `v` at index `at`.
pub fn matches_at(v: &Vec<char>, pat: &Vec<char>, at: usize) -> (r: bool)
    ensures
        r == occurs_at(v@, pat@, at as int),
{
    if at > v.len() || pat.len() > v.len() - at {
        return false;
    }
    let end: usize = at + pat.len();
    let mut j: usize = 0;
    while j < pat.len()
        invariant
            end == at + pat@.len(),
            at + pat@.len() <= v@.len(),
            at <= v@.len(),
            j <= pat@.len(),
            forall|k: int| 0 <= k < j ==> v@[at + k] == pat@[k],
        decreases pat@.len() - j,
    {
        assert(at + j < v@.len());
        if v[at + j] != pat[j] {
            assert(v@.subrange(at as int, at + pat@.len())[j as int] != pat@[j as int]);
            return false;
        }
        j = j + 1;
    }
    assert(v@.subrange(at as int, at + pat@.len()) =~= pat@);
    true
}

/// Finds the first occurrence of `pat` in `v` at or after `from`.
pub fn find_sub(v: &Vec<char>, pat: &Vec<char>, from: usize) -> (r: Option<usize>)
    ensures
        r matches Some(k) ==> from <= k && k + pat@.len() <= v@.len(),
        match r {
            Some(k) => find_sub_from(v@, pat@, from as int) == Some(k as int),
            None => find_sub_from(v@, pat@, from as int) is None,
        },
{
    if pat.len() > v.len() {
        return None;
    }
    let last = v.len() - pat.len();
    let mut i = from;
    while i <= last
        invariant
            from <= i,
            last == v@.len() - pat@.len(),
            find_sub_from(v@, pat@, from as int) == find_sub_from(v@, pat@, i as int),
        decreases v@.len() + 1 - i,
    {
        if matches_at(v, pat, i) {
            return Some(i);
        }
        if i == last {
            assert(find_sub_from(v@, pat@, i + 1) is None);
            return None;
        }
        i = i + 1;
    }
    None
}

/// Whether `s` starts with `p`.
pub open spec fn has_prefix(s: Seq<char>, p: Seq<char>) -> bool {
    p.len() <= s.len() && s.subrange(0, p.len() as int) == p
}

/// Whether `s` ends with `p`.
pub open spec fn has_suffix(s: Seq<char>, p: Seq<char>) -> bool {
    p.len() <= s.len() && s.subrange(s.len() - p.len(), s.len() as int) == p
}

/// Whether `v` starts with the string `p`.
pub fn starts_with(v: &Vec<char>, p: &str) -> (r: bool)
    ensures
        r == has_prefix(v@, p@),
{
    let pv = chars_of(p);
    let r = matches_at(v, &pv, 0);
    assert(r == has_prefix(v@, p@)) by {
        if has_prefix(v@, p@) {
            assert(occurs_at(v@, pv@, 0));
        }
    }
    r
}

/// Whether `v` ends with the string `p`.
pub fn ends_with(v: &Vec<char>, p: &str) -> (r: bool)
    ensures
        r == has_suffix(v@, p@),
{
    let pv = chars_of(p);
    if pv.len() > v.len() {
        return false;
    }
    matches_at(v, &pv, v.len() - pv.len())
}

/// Whether `c` occurs in `s`.
pub open spec fn contains_char(s: Seq<char>, c: char) -> bool {
    exists|i: int| 0 <= i < s.len() && s[i] == c
}

/// Whether `c` occurs in `v`.
pub fn has_char(v: &Vec<char>, c: char) -> (r: bool)
    ensures
        r == contains_char(v@, c),
{
    let mut i: usize = 0;
    while i < v.len()
        invariant
            i <= v@.len(),
            forall|j: int| 0 <= j < i ==> v@[j] != c,
        decreases v@.len() - i,
    {
        if v[i] == c {
            return true;
        }
        i = i + 1;
    }
    false
}

// ---------------------------------------------------------------------------
// Splitting
// ---------------------------------------------------------------------------

/// `str::split_once` with a character: the text before and after the first `c`.
pub open spec fn split_once_char(s: Seq<char>, c: char) -> Option<(Seq<char>, Seq<char>)> {
    match find_char_from(s, c, 0) {
        Some(i) => Some((s.subrange(0, i), s.subrange(i + 1, s.len() as int))),
        None => None,
    }
}

/// `str::split_once` with a string pattern: the text before and after the first `pat`.
pub open spec fn split_once_sub(s: Seq<char>, pat: Seq<char>) -> Option<(Seq<char>, Seq<char>)> {
    match find_sub_from(s, pat, 0) {
        Some(i) => Some((s.subrange(0, i), s.subrange(i + pat.len(), s.len() as int))),
        None => None,
    }
}

/// `str::splitn(n, c)`: at most `n` pieces, the last one holding the rest.
pub open spec fn splitn_char(s: Seq<char>, n: nat, c: char) -> Seq<Seq<char>>
    decreases n,
{
    if n == 0 {
        Seq::empty()
    } else if n == 1 {
        seq![s]
    } else {
        match find_char_from(s, c, 0) {
            Some(i) => seq![s.subrange(0, i)] + splitn_char(
                s.subrange(i + 1, s.len() as int),
                (n - 1) as nat,
                c,
            ),
            None => seq![s],
        }
    }
}

/// `str::split(c)`: all pieces between occurrences of `c`.
pub open spec fn split_char(s: Seq<char>, c: char) -> Seq<Seq<char>>
    decreases s.len(),
{
    match find_char_from(s, c, 0) {
        Some(i) => if 0 <= i < s.len() {
            seq![s.subrange(0, i)] + split_char(s.subrange(i + 1, s.len() as int), c)
        } else {
            seq![s]
        },
        None => seq![s],
    }
}

/// The views of a vector of character vectors.
pub open spec fn vviews(v: Seq<Vec<char>>) -> Seq<Seq<char>> {
    v.map_values(|x: Vec<char>| x@)
}

/// Splits `v` at the first `c`.
pub fn split_once(v: &Vec<char>, c: char) -> (r: Option<(Vec<char>, Vec<char>)>)
    ensures
        match (r, split_once_char(v@, c)) {
            (Some((a, b)), Some((x, y))) => a@ == x && b@ == y,
            (None, None) => true,
            _ => false,
        },
{
    proof {
        lemma_find_char_from(v@, c, 0);
    }
    let n = v.len();
    match find_char(v, c, 0) {
        Some(i) => Some((slice_chars(v, 0, i), slice_chars(v, i + 1, n))),
        None => None,
    }
}

/// Splits `v` at the first occurrence of `pat`.
pub fn split_once_str(v: &Vec<char>, pat: &str) -> (r: Option<(Vec<char>, Vec<char>)>)
    ensures
        match (r, split_once_sub(v@, pat@)) {
            (Some((a, b)), Some((x, y))) => a@ == x && b@ == y,
            (None, None) => true,
            _ => false,
        },
{
    let p = chars_of(pat);
    proof {
        lemma_find_sub_from(v@, p@, 0);
    }
    let n = v.len();
    match find_sub(v, &p, 0) {
        Some(i) => Some((slice_chars(v, 0, i), slice_chars(v, i + p.len(), n))),
        None => None,
    }
}

/// At most `n` pieces of `v` separated by `c`, the last holding the rest.
pub fn splitn(v: &Vec<char>, n: usize, c: char) -> (r: Vec<Vec<char>>)
    ensures
        vviews(r@) == splitn_char(v@, n as nat, c),
    decreases n,
{
    if n == 0 {
        let r: Vec<Vec<char>> = Vec::new();
        assert(vviews(r@) =~= Seq::<Seq<char>>::empty());
        return r;
    }
    if n == 1 {
        let mut r: Vec<Vec<char>> = Vec::new();
        r.push(copy_chars(v));
        assert(vviews(r@) =~= seq![v@]);
        return r;
    }
    proof {
        lemma_find_char_from(v@, c, 0);
    }
    let len = v.len();
    match find_char(v, c, 0) {
        Some(i) => {
            let head = slice_chars(v, 0, i);
            let tail = slice_chars(v, i + 1, v.len());
            let rest = splitn(&tail, n - 1, c);
            let mut r: Vec<Vec<char>> = Vec::new();
            r.push(head);
            assert(vviews(r@) =~= seq![v@.subrange(0, i as int)] + vviews(rest@.take(0)));
            let mut k: usize = 0;
            while k < rest.len()
                invariant
                    i < v@.len(),
                    k <= rest@.len(),
                    vviews(r@) == seq![v@.subrange(0, i as int)] + vviews(rest@.take(k as int)),
                decreases rest@.len() - k,
            {
                let ghost before = r@;
                r.push(copy_chars(&rest[k]));
                assert(vviews(r@) =~= vviews(before).push(rest@[k as int]@));
                k = k + 1;
                assert(vviews(rest@.take(k as int)) =~= vviews(rest@.take(k - 1)).push(rest@[k - 1]@));
                assert(vviews(r@) =~= seq![v@.subrange(0, i as int)] + vviews(rest@.take(k as int)));
            }
            assert(rest@.take(rest@.len() as int) =~= rest@);
            r
        },
        None => {
            let mut r: Vec<Vec<char>> = Vec::new();
            r.push(copy_chars(v));
            assert(vviews(r@) =~= seq![v@]);
            r
        },
    }
}

/// All pieces of `v` separated by `c` (`str::split` with a character).
pub fn split_all(v: &Vec<char>, c: char) -> (r: Vec<Vec<char>>)
    ensures
        vviews(r@) == split_char(v@, c),
    decreases v@.len(),
{
    proof {
        lemma_find_char_from(v@, c, 0);
    }
    let len = v.len();
    match find_char(v, c, 0) {
        Some(i) => {
            let head = slice_chars(v, 0, i);
            let tail = slice_chars(v, i + 1, len);
            let rest = split_all(&tail, c);
            let mut r: Vec<Vec<char>> = Vec::new();
            r.push(head);
            let mut k: usize = 0;
            assert(vviews(r@) =~= seq![v@.subrange(0, i as int)] + vviews(rest@).take(0));
            while k < rest.len()
                invariant
                    i < v@.len(),
                    k <= rest@.len(),
                    vviews(r@) == seq![v@.subrange(0, i as int)] + vviews(rest@).take(k as int),
                decreases rest@.len() - k,
            {
                let ghost before = r@;
                r.push(copy_chars(&rest[k]));
                assert(vviews(r@) =~= vviews(before).push(rest@[k as int]@));
                k = k + 1;
                assert(vviews(rest@).take(k as int) =~= vviews(rest@).take(k - 1).push(rest@[k - 1]@));
            }
            assert(vviews(rest@).take(rest@.len() as int) =~= vviews(rest@));
            r
        },
        None => {
            let mut r: Vec<Vec<char>> = Vec::new();
            r.push(copy_chars(v));
            assert(vviews(r@) =~= seq![v@]);
            r
        },
    }
}

/// Number of pieces `str::split(c)` yields: one more than the occurrences of `c`.
pub fn split_count(v: &Vec<char>, c: char) -> (r: usize)
    requires
        v@.len() < usize::MAX,
    ensures
        r == split_char(v@, c).len(),
{
    let mut count: usize = 1;
    let mut i: usize = 0;
    let ghost mut rest = v@;
    while i < v.len()
        invariant
            i <= v@.len(),
            rest == v@.subrange(i as int, v@.len() as int),
            count as int + split_char(rest, c).len() - 1 == split_char(v@, c).len(),
            1 <= count <= i + 1,
            v@.len() < usize::MAX,
        decreases v@.len() - i,
    {
        proof {
            lemma_find_char_from(rest, c, 0);
        }
        if v[i] == c {
            proof {
                assert(rest[0] == c);
                assert(find_char_from(rest, c, 0) == Some(0int));
                assert(rest.subrange(1, rest.len() as int) =~= v@.subrange(i + 1, v@.len() as int));
            }
            count = count + 1;
        } else {
            proof {
                assert(rest[0] != c);
                lemma_split_char_skip(rest, c);
                assert(rest.drop_first() =~= v@.subrange(i + 1, v@.len() as int));
            }
        }
        i = i + 1;
        proof {
            rest = v@.subrange(i as int, v@.len() as int);
        }
    }
    proof {
        assert(rest.len() == 0);
        assert(find_char_from(rest, c, 0) is None);
    }
    count
}

/// Dropping a leading non-separator keeps the number of pieces.
pub proof fn lemma_split_char_skip(s: Seq<char>, c: char)
    requires
        s.len() > 0,
        s[0] != c,
    ensures
        split_char(s, c).len() == split_char(s.drop_first(), c).len(),
    decreases s.len(),
{
    lemma_find_char_from(s, c, 0);
    lemma_find_char_from(s.drop_first(), c, 0);
    lemma_find_char_shift(s, c, 0);
    match find_char_from(s, c, 0) {
        Some(i) => {
            assert(s.subrange(i + 1, s.len() as int) =~= s.drop_first().subrange(i, s.drop_first().len() as int));
        },
        None => {},
    }
}

/// Searching one position later in a sequence without its first element.
pub proof fn lemma_find_char_shift(s: Seq<char>, c: char, from: int)
    requires
        s.len() > 0,
        0 <= from,
        s[0] != c || from >= 1,
    ensures
        find_char_from(s, c, from + 1) == match find_char_from(s.drop_first(), c, from) {
            Some(k) => Some(k + 1),
            None => None::<int>,
        },
        from == 0 ==> find_char_from(s, c, 0) == match find_char_from(s.drop_first(), c, 0) {
            Some(k) => Some(k + 1),
            None => None::<int>,
        },
    decreases s.len() - from,
{
    if from + 1 < s.len() {
        if s[from + 1] != c {
            lemma_find_char_shift(s, c, from + 1);
        }
    }
}

// ---------------------------------------------------------------------------
// Whitespace and trimming
// ---------------------------------------------------------------------------

/// The Unicode `White_Space` property (what `char::is_whitespace` tests).
pub open spec fn is_ws(c: char) -> bool {
    ||| ('\u{9}' <= c && c <= '\u{d}')
    ||| c == ' '
    ||| c == '\u{85}'
    ||| c == '\u{a0}'
    ||| c == '\u{1680}'
    ||| ('\u{2000}' <= c && c <= '\u{200a}')
    ||| c == '\u{2028}'
    ||| c == '\u{2029}'
    ||| c == '\u{202f}'
    ||| c == '\u{205f}'
    ||| c == '\u{3000}'
}

/// Tests the Unicode `White_Space` property.
pub fn is_whitespace(c: char) -> (r: bool)
    ensures
        r == is_ws(c),
{
    ('\u{9}' <= c && c <= '\u{d}') || c == ' ' || c == '\u{85}' || c == '\u{a0}' || c
        == '\u{1680}' || ('\u{2000}' <= c && c <= '\u{200a}') || c == '\u{2028}' || c
        == '\u{2029}' || c == '\u{202f}' || c == '\u{205f}' || c == '\u{3000}'
}

/// `s` without leading whitespace (`str::trim_start`).
pub open spec fn trim_start(s: Seq<char>) -> Seq<char>
    decreases s.len(),
{
    if s.len() > 0 && is_ws(s[0]) {
        trim_start(s.drop_first())
    } else {
        s
    }
}

/// `s` without trailing whitespace (`str::trim_end`).
pub open spec fn trim_end(s: Seq<char>) -> Seq<char>
    decreases s.len(),
{
    if s.len() > 0 && is_ws(s.last()) {
        trim_end(s.drop_last())
    } else {
        s
    }
}

/// `s` without leading and trailing whitespace (`str::trim`).
pub open spec fn trim(s: Seq<char>) -> Seq<char> {
    trim_end(trim_start(s))
}

proof fn lemma_trim_start_skip(s: Seq<char>, i: int)
    requires
        0 <= i <= s.len(),
        forall|j: int| 0 <= j < i ==> is_ws(s[j]),
    ensures
        trim_start(s) == trim_start(s.subrange(i, s.len() as int)),
    decreases i,
{
    if i > 0 {
        assert(s.drop_first().subrange(i - 1, s.drop_first().len() as int) =~= s.subrange(
            i,
            s.len() as int,
        ));
        lemma_trim_start_skip(s.drop_first(), i - 1);
    } else {
        assert(s.subrange(0, s.len() as int) =~= s);
    }
}

proof fn lemma_trim_end_skip(s: Seq<char>, k: int)
    requires
        0 <= k <= s.len(),
        forall|j: int| k <= j < s.len() ==> is_ws(s[j]),
    ensures
        trim_end(s) == trim_end(s.subrange(0, k)),
    decreases s.len() - k,
{
    if k < s.len() {
        assert(s.drop_last().subrange(0, k) =~= s.subrange(0, k));
        lemma_trim_end_skip(s.drop_last(), k);
    } else {
        assert(s.subrange(0, k) =~= s);
    }
}

/// Bounds `(a, b)` such that the characters of `v` in `a..b` are `v` trimmed of
/// leading and trailing whitespace.
pub fn trim_bounds(v: &Vec<char>) -> (r: (usize, usize))
    ensures
        r.0 <= r.1 <= v@.len(),
        v@.subrange(r.0 as int, r.1 as int) == trim(v@),
        v@.subrange(r.0 as int, v@.len() as int) == trim_start(v@),
        v@.subrange(0, r.1 as int) == trim_end(v@) || r.0 == r.1,
{
    let n = v.len();
    let mut a: usize = 0;
    while a < n && is_whitespace(v[a])
        invariant
            a <= n == v@.len(),
            forall|j: int| 0 <= j < a ==> is_ws(v@[j]),
        decreases n - a,
    {
        a = a + 1;
    }
    proof {
        lemma_trim_start_skip(v@, a as int);
        let t = v@.subrange(a as int, n as int);
        if a < n {
            assert(!is_ws(t[0]));
        }
        assert(trim_start(t) == t);
    }
    let mut b: usize = n;
    while b > a && is_whitespace(v[b - 1])
        invariant
            a <= b <= n == v@.len(),
            forall|j: int| b <= j < n ==> is_ws(v@[j]),
        decreases b,
    {
        b = b - 1;
    }
    proof {
        let t = v@.subrange(a as int, n as int);
        assert forall|j: int| b - a <= j < t.len() implies is_ws(t[j]) by {
            assert(t[j] == v@[a + j]);
        }
        lemma_trim_end_skip(t, b - a);
        let u = t.subrange(0, b - a);
        assert(u =~= v@.subrange(a as int, b as int));
        if b > a {
            assert(!is_ws(u.last()));
        }
        assert(trim_end(u) == u);
        if a < b {
            assert forall|j: int| b <= j < n implies is_ws(v@[j]) by {}
            lemma_trim_end_skip(v@, b as int);
            let w = v@.subrange(0, b as int);
            assert(!is_ws(w.last()));
            assert(trim_end(w) == w);
        }
    }
    (a, b)
}

/// The characters of `v` trimmed of leading and trailing whitespace.
pub fn trim_chars(v: &Vec<char>) -> (r: Vec<char>)
    ensures
        r@ == trim(v@),
{
    let (a, b) = trim_bounds(v);
    slice_chars(v, a, b)
}

/// `s` with surrounding whitespace removed (`str::trim`).
pub fn trim_str(s: &str) -> (r: String)
    ensures
        r@ == trim(s@),
{
    let v = chars_of(s);
    let t = trim_chars(&v);
    string_of(&t)
}

/// `s` without leading and trailing `c`s (`str::trim_matches` with a character).
pub open spec fn trim_matches(s: Seq<char>, c: char) -> Seq<char> {
    trim_end_matches(trim_start_matches(s, c), c)
}

/// `s` without leading `c`s.
pub open spec fn trim_start_matches(s: Seq<char>, c: char) -> Seq<char>
    decreases s.len(),
{
    if s.len() > 0 && s[0] == c {
        trim_start_matches(s.drop_first(), c)
    } else {
        s
    }
}

/// `s` without trailing `c`s.
pub open spec fn trim_end_matches(s: Seq<char>, c: char) -> Seq<char>
    decreases s.len(),
{
    if s.len() > 0 && s.last() == c {
        trim_end_matches(s.drop_last(), c)
    } else {
        s
    }
}

/// Removes leading `c`s.
pub fn strip_start(v: &Vec<char>, c: char) -> (r: Vec<char>)
    ensures
        r@ == trim_start_matches(v@, c),
{
    let mut i: usize = 0;
    assert(v@.subrange(0, v@.len() as int) =~= v@);
    while i < v.len() && v[i] == c
        invariant
            i <= v@.len(),
            trim_start_matches(v@, c) == trim_start_matches(v@.subrange(i as int, v@.len() as int), c),
        decreases v@.len() - i,
    {
        assert(v@.subrange(i as int, v@.len() as int).drop_first() =~= v@.subrange(i + 1, v@.len() as int));
        i = i + 1;
    }
    let r = slice_chars(v, i, v.len());
    if r.len() > 0 {
        assert(r@[0] == v@[i as int]);
    }
    r
}

/// Removes trailing `c`s.
pub fn strip_end(v: &Vec<char>, c: char) -> (r: Vec<char>)
    ensures
        r@ == trim_end_matches(v@, c),
{
    let mut k: usize = v.len();
    assert(v@.subrange(0, v@.len() as int) =~= v@);
    while k > 0 && v[k - 1] == c
        invariant
            k <= v@.len(),
            trim_end_matches(v@, c) == trim_end_matches(v@.subrange(0, k as int), c),
        decreases k,
    {
        assert(v@.subrange(0, k as int).drop_last() =~= v@.subrange(0, k - 1));
        k = k - 1;
    }
    let r = slice_chars(v, 0, k);
    if r.len() > 0 {
        assert(r@.last() == v@[k - 1]);
    }
    r
}

/// Removes leading and trailing `c`s.
pub fn strip_both(v: &Vec<char>, c: char) -> (r: Vec<char>)
    ensures
        r@ == trim_matches(v@, c),
{
    let a = strip_start(v, c);
    strip_end(&a, c)
}

/// A line without its trailing carriage return.
pub open spec fn strip_cr(l: Seq<char>) -> Seq<char> {
    if l.len() > 0 && l.last() == '\r' {
        l.drop_last()
    } else {
        l
    }
}

/// `str::lines`: pieces ended by `\n` (a `\r` before the `\n` is dropped); a final
/// piece without `\n` is kept as is; no empty piece after a final `\n`.
pub open spec fn lines_of(s: Seq<char>) -> Seq<Seq<char>>
    decreases s.len(),
{
    if s.len() == 0 {
        Seq::empty()
    } else {
        match find_char_from(s, '\n', 0) {
            Some(i) => if 0 <= i < s.len() {
                seq![strip_cr(s.subrange(0, i))] + lines_of(s.subrange(i + 1, s.len() as int))
            } else {
                seq![s]
            },
            None => seq![s],
        }
    }
}

/// The lines of a text (`str::lines`).
pub fn lines(v: &Vec<char>) -> (r: Vec<Vec<char>>)
    ensures
        vviews(r@) == lines_of(v@),
{
    let mut r: Vec<Vec<char>> = Vec::new();
    let mut start: usize = 0;
    let n = v.len();
    assert(v@.subrange(0, n as int) =~= v@);
    while start < n
        invariant
            start <= n == v@.len(),
            lines_of(v@) == vviews(r@) + lines_of(v@.subrange(start as int, n as int)),
        decreases n - start,
    {
        let ghost rest = v@.subrange(start as int, n as int);
        proof {
            lemma_find_char_from(rest, '\n', 0);
            lemma_find_char_offset(v@, '\n', start as int);
        }
        match find_char(v, '\n', start) {
            Some(i) => {
                let mut end = i;
                if end > start && v[end - 1] == '\r' {
                    end = end - 1;
                }
                let line = slice_chars(v, start, end);
                let ghost before = r@;
                proof {
                    let l = rest.subrange(0, i - start);
                    assert(l =~= v@.subrange(start as int, i as int));
                    if i > start && v@[i - 1] == '\r' {
                        assert(strip_cr(l) =~= v@.subrange(start as int, end as int));
                    } else {
                        assert(strip_cr(l) =~= v@.subrange(start as int, end as int));
                    }
                    assert(rest.subrange(i - start + 1, rest.len() as int) =~= v@.subrange(i + 1, n as int));
                }
                r.push(line);
                assert(vviews(r@) =~= vviews(before).push(line@));
                assert(vviews(before) + (seq![line@] + lines_of(v@.subrange(i + 1, n as int))) =~= vviews(r@) + lines_of(v@.subrange(i + 1, n as int)));
                start = i + 1;
            },
            None => {
                let line = slice_chars(v, start, n);
                let ghost before = r@;
                r.push(line);
                assert(vviews(r@) =~= vviews(before).push(line@));
                assert(lines_of(v@.subrange(n as int, n as int)) =~= Seq::<Seq<char>>::empty());
                assert(vviews(before) + seq![line@] =~= vviews(r@) + lines_of(v@.subrange(n as int, n as int)));
                start = n;
            },
        }
    }
    assert(lines_of(v@.subrange(n as int, n as int)) == Seq::<Seq<char>>::empty());
    assert(vviews(r@) + Seq::<Seq<char>>::empty() =~= vviews(r@));
    r
}

/// Searching a suffix is searching the whole from an offset.
pub proof fn lemma_find_char_offset(s: Seq<char>, c: char, start: int)
    requires
        0 <= start <= s.len(),
    ensures
        find_char_from(s.subrange(start, s.len() as int), c, 0) == match find_char_from(s, c, start) {
            Some(k) => Some(k - start),
            None => None::<int>,
        },
{
    lemma_find_char_from(s, c, start);
    lemma_find_char_from(s.subrange(start, s.len() as int), c, 0);
    let t = s.subrange(start, s.len() as int);
    match find_char_from(s, c, start) {
        Some(k) => {
            lemma_find_char_first(t, c, k - start);
        },
        None => {
            match find_char_from(t, c, 0) {
                Some(j) => {
                    assert(s[start + j] == c);
                },
                None => {},
            }
        },
    }
}

/// A first occurrence is what `find_char_from` finds.
pub proof fn lemma_find_char_first(s: Seq<char>, c: char, k: int)
    requires
        0 <= k < s.len(),
        s[k] == c,
        forall|j: int| 0 <= j < k ==> s[j] != c,
    ensures
        find_char_from(s, c, 0) == Some(k),
{
    lemma_find_char_first_from(s, c, k, 0);
}

proof fn lemma_find_char_first_from(s: Seq<char>, c: char, k: int, from: int)
    requires
        0 <= from <= k < s.len(),
        s[k] == c,
        forall|j: int| from <= j < k ==> s[j] != c,
    ensures
        find_char_from(s, c, from) == Some(k),
    decreases k - from,
{
    if from < k {
        lemma_find_char_first_from(s, c, k, from + 1);
    }
}

// ---------------------------------------------------------------------------
// Case mapping
// ---------------------------------------------------------------------------

/// What `str::to_lowercase` returns for a string (full Unicode case mapping).
pub uninterp spec fn spec_to_lowercase(s: Seq<char>) -> Seq<char>;

/// What `str::to_uppercase` returns for a string (full Unicode case mapping).
pub uninterp spec fn spec_to_uppercase(s: Seq<char>) -> Seq<char>;

/// What `char::to_uppercase` yields for a character, collected into a string.
pub uninterp spec fn spec_char_to_uppercase(c: char) -> Seq<char>;

/// Whether a character is ASCII (`char::is_ascii`).
pub open spec fn is_ascii_char(c: char) -> bool {
    (c as u32) < 128
}

/// Whether every character of `s` is ASCII (`str::is_ascii`).
pub open spec fn is_ascii_chars(s: Seq<char>) -> bool {
    forall|i: int| 0 <= i < s.len() ==> is_ascii_char(#[trigger] s[i])
}

/// The lowercase mapping of `s`: letter by letter on ASCII text, the full
/// Unicode mapping otherwise.
pub open spec fn lowercased(s: Seq<char>) -> Seq<char> {
    if is_ascii_chars(s) {
        ascii_lower_seq(s)
    } else {
        spec_to_lowercase(s)
    }
}

/// The uppercase mapping of `s`: letter by letter on ASCII text, the full
/// Unicode mapping otherwise.
pub open spec fn uppercased(s: Seq<char>) -> Seq<char> {
    if is_ascii_chars(s) {
        ascii_upper_seq(s)
    } else {
        spec_to_uppercase(s)
    }
}

/// The uppercase mapping of one character, as a string: the ASCII uppercase
/// letter for an ASCII character, the full Unicode mapping otherwise.
pub open spec fn char_uppercased(c: char) -> Seq<char> {
    if is_ascii_char(c) {
        seq![ascii_upper(c)]
    } else {
        spec_char_to_uppercase(c)
    }
}

/// `str::to_lowercase`. Its result is named by `spec_to_lowercase`; as the
/// standard library documents, ASCII text is mapped letter by letter (only
/// `A`..`Z` change).
#[verifier::external_body]
pub(crate) fn to_lowercase(s: &str) -> (r: String)
    ensures
        r@ == spec_to_lowercase(s@),
        is_ascii_chars(s@) ==> r@ == ascii_lower_seq(s@),
{
    s.to_lowercase()
}

/// `str::to_uppercase`. Its result is named by `spec_to_uppercase`; as the
/// standard library documents, ASCII text is mapped letter by letter (only
/// `a`..`z` change).
#[verifier::external_body]
pub(crate) fn to_uppercase(s: &str) -> (r: String)
    ensures
        r@ == spec_to_uppercase(s@),
        is_ascii_chars(s@) ==> r@ == ascii_upper_seq(s@),
{
    s.to_uppercase()
}

/// `char::to_uppercase` collected into a string. Its result is named by
/// `spec_char_to_uppercase`; an ASCII character yields its ASCII uppercase alone.
#[verifier::external_body]
pub(crate) fn char_to_uppercase(c: char) -> (r: String)
    ensures
        r@ == spec_char_to_uppercase(c),
        is_ascii_char(c) ==> r@ == seq![ascii_upper(c)],
{
    c.to_uppercase().collect()
}

/// ASCII lowercase of one character (`char::to_ascii_lowercase`).
pub open spec fn ascii_lower(c: char) -> char {
    if 'A' <= c && c <= 'Z' {
        ((c as u32) + 32) as char
    } else {
        c
    }
}

/// ASCII uppercase of one character (`char::to_ascii_uppercase`).
pub open spec fn ascii_upper(c: char) -> char {
    if 'a' <= c && c <= 'z' {
        ((c as u32) - 32) as char
    } else {
        c
    }
}

/// ASCII lowercase of a string (`str::to_ascii_lowercase`).
pub open spec fn ascii_lower_seq(s: Seq<char>) -> Seq<char> {
    s.map_values(|c: char| ascii_lower(c))
}

/// ASCII uppercase of a string (`str::to_ascii_uppercase`).
pub open spec fn ascii_upper_seq(s: Seq<char>) -> Seq<char> {
    s.map_values(|c: char| ascii_upper(c))
}

fn lower_char(c: char) -> (r: char)
    ensures
        r == ascii_lower(c),
{
    if 'A' <= c && c <= 'Z' {
        let u = (c as u32) + 32;
        assert(u <= 0x7f);
        u as u8 as char
    } else {
        c
    }
}

fn upper_char(c: char) -> (r: char)
    ensures
        r == ascii_upper(c),
{
    if 'a' <= c && c <= 'z' {
        let u = (c as u32) - 32;
        assert(u <= 0x7f);
        u as u8 as char
    } else {
        c
    }
}

/// ASCII lowercase of a character vector.
pub fn ascii_lowercase(v: &Vec<char>) -> (r: Vec<char>)
    ensures
        r@ == ascii_lower_seq(v@),
{
    let mut r: Vec<char> = Vec::new();
    let mut i: usize = 0;
    while i < v.len()
        invariant
            i <= v@.len(),
            r@ == ascii_lower_seq(v@.take(i as int)),
        decreases v@.len() - i,
    {
        r.push(lower_char(v[i]));
        i = i + 1;
        assert(ascii_lower_seq(v@.take(i as int)) =~= ascii_lower_seq(v@.take(i - 1)).push(
            ascii_lower(v@[i - 1]),
        ));
    }
    assert(v@.take(v@.len() as int) =~= v@);
    r
}

/// ASCII uppercase of a character vector.
pub fn ascii_uppercase(v: &Vec<char>) -> (r: Vec<char>)
    ensures
        r@ == ascii_upper_seq(v@),
{
    let mut r: Vec<char> = Vec::new();
    let mut i: usize = 0;
    while i < v.len()
        invariant
            i <= v@.len(),
            r@ == ascii_upper_seq(v@.take(i as int)),
        decreases v@.len() - i,
    {
        r.push(upper_char(v[i]));
        i = i + 1;
        assert(ascii_upper_seq(v@.take(i as int)) =~= ascii_upper_seq(v@.take(i - 1)).push(
            ascii_upper(v@[i - 1]),
        ));
    }
    assert(v@.take(v@.len() as int) =~= v@);
    r
}

// ---------------------------------------------------------------------------
// Numbers
// ---------------------------------------------------------------------------

/// The decimal digit character for `d` (`d < 10`).
pub open spec fn digit_char(d: nat) -> char {
    ((d + 48) as u8) as char
}

/// Decimal representation of a natural number, without leading zeros (`Display` for integers).
pub open spec fn dec(n: nat) -> Seq<char>
    decreases n,
{
    if n < 10 {
        seq![digit_char(n)]
    } else {
        dec(n / 10).push(digit_char(n % 10))
    }
}

/// Appends the decimal representation of `n`.
pub fn push_dec(v: &mut Vec<char>, n: u64)
    ensures
        final(v)@ == old(v)@ + dec(n as nat),
    decreases n,
{
    if n >= 10 {
        push_dec(v, n / 10);
    }
    let d = (n % 10) as u8;
    v.push((d + 48) as char);
    proof {
        assert(((d + 48) as u8) as char == digit_char((n % 10) as nat));
    }
}

/// Decimal representation of `n` as a string.
pub fn dec_string(n: u64) -> (r: String)
    ensures
        r@ == dec(n as nat),
{
    let mut v: Vec<char> = Vec::new();
    push_dec(&mut v, n);
    assert(v@ =~= dec(n as nat));
    string_of(&v)
}

/// Whether `c` is an ASCII decimal digit.
pub open spec fn is_digit(c: char) -> bool {
    '0' <= c && c <= '9'
}

/// Value of an ASCII decimal digit.
pub open spec fn digit_value(c: char) -> nat {
    (c as u32 - '0' as u32) as nat
}

/// Value of a sequence of decimal digits.
pub open spec fn digits_value(s: Seq<char>) -> nat
    decreases s.len(),
{
    if s.len() == 0 {
        0
    } else {
        digits_value(s.drop_last()) * 10 + digit_value(s.last())
    }
}

/// Whether every character of `s` is a decimal digit.
pub open spec fn all_digits(s: Seq<char>) -> bool {
    forall|i: int| 0 <= i < s.len() ==> is_digit(#[trigger] s[i])
}

/// What `str::parse` gives for an unsigned integer type whose largest value is `max`:
/// an optional `+`, then one or more decimal digits, with a value no larger than `max`.
pub open spec fn parse_unsigned(s: Seq<char>, max: nat) -> Option<nat> {
    let body = if s.len() > 0 && s[0] == '+' {
        s.drop_first()
    } else {
        s
    };
    if body.len() > 0 && all_digits(body) && digits_value(body) <= max {
        Some(digits_value(body))
    } else {
        None
    }
}

/// Parses an unsigned decimal no larger than `max` (the rules of `str::parse` for `u32`/`usize`/`u64`).
pub fn parse_unsigned_chars(v: &Vec<char>, max: u64) -> (r: Option<u64>)
    requires
        max >= 9,
    ensures
        match r {
            Some(x) => parse_unsigned(v@, max as nat) == Some(x as nat),
            None => parse_unsigned(v@, max as nat) is None,
        },
{
    let start: usize = if v.len() > 0 && v[0] == '+' {
        1
    } else {
        0
    };
    let ghost body = if v@.len() > 0 && v@[0] == '+' {
        v@.drop_first()
    } else {
        v@
    };
    assert(body =~= v@.subrange(start as int, v@.len() as int));
    if start >= v.len() {
        return None;
    }
    let mut acc: u64 = 0;
    let mut i: usize = start;
    while i < v.len()
        invariant
            start <= i <= v@.len(),
            max >= 9,
            body == v@.subrange(start as int, v@.len() as int),
            body == (if v@.len() > 0 && v@[0] == '+' {
                v@.drop_first()
            } else {
                v@
            }),
            all_digits(v@.subrange(start as int, i as int)),
            acc as nat == digits_value(v@.subrange(start as int, i as int)),
            acc <= max,
        decreases v@.len() - i,
    {
        let c = v[i];
        if !('0' <= c && c <= '9') {
            assert(body[i - start] == c);
            assert(!is_digit(body[i - start]));
            return None;
        }
        let d = (c as u32 - '0' as u32) as u64;
        proof {
            let pre = v@.subrange(start as int, i as int);
            let next = v@.subrange(start as int, i + 1);
            assert(next.drop_last() =~= pre);
            assert(next.last() == c);
        }
        if acc > (max - d) / 10 {
            proof {
                let next = v@.subrange(start as int, i + 1);
                assert(digits_value(next) > max) by (nonlinear_arith)
                    requires
                        digits_value(next) == acc * 10 + d,
                        acc > (max - d) / 10,
                        d <= 9,
                        d <= max || acc * 10 + d > max,
                ;
                lemma_digits_value_prefix_le(body, (i + 1 - start) as int);
                assert(body.take((i + 1 - start) as int) =~= next);
            }
            return None;
        }
        proof {
            assert(acc * 10 + d <= max) by (nonlinear_arith)
                requires
                    acc <= (max - d) / 10,
                    d <= max || acc == 0,
            ;
        }
        acc = acc * 10 + d;
        i = i + 1;
    }
    assert(v@.subrange(start as int, v@.len() as int) == body);
    Some(acc)
}

/// A prefix of a digit string never has a larger value than the whole.
pub proof fn lemma_digits_value_prefix_le(s: Seq<char>, k: int)
    requires
        0 <= k <= s.len(),
    ensures
        digits_value(s.take(k)) <= digits_value(s),
    decreases s.len() - k,
{
    if k < s.len() {
        lemma_digits_value_prefix_le(s.drop_last(), k);
        assert(s.drop_last().take(k) =~= s.take(k));
        assert(s.drop_last() == s.take(s.len() - 1));
    } else {
        assert(s.take(k) =~= s);
    }
}

/// The number of UTF-8 bytes of a character.
pub open spec fn utf8_width(c: char) -> nat {
    vstd::utf8::encode_scalar(c as u32).len()
}

/// The number of characters that make up the first `b` UTF-8 bytes of `s`;
/// `None` when byte `b` falls inside a character or past the end.
pub open spec fn char_index_at_byte(s: Seq<char>, b: nat) -> Option<nat>
    decreases s.len(),
{
    if b == 0 {
        Some(0)
    } else if s.len() == 0 || b < utf8_width(s[0]) {
        None
    } else {
        match char_index_at_byte(s.drop_first(), (b - utf8_width(s[0])) as nat) {
            Some(k) => Some(k + 1),
            None => None,
        }
    }
}

/// The character index of a byte boundary lies within the text, and a later
/// boundary is never at an earlier character.
pub proof fn lemma_char_index_order(s: Seq<char>, b1: nat, b2: nat)
    requires
        char_index_at_byte(s, b1) is Some,
        char_index_at_byte(s, b2) is Some,
        b1 <= b2,
    ensures
        char_index_at_byte(s, b1)->0 <= char_index_at_byte(s, b2)->0 <= s.len(),
    decreases s.len(),
{
    if b1 > 0 {
        let w = utf8_width(s[0]);
        lemma_char_index_order(s.drop_first(), (b1 - w) as nat, (b2 - w) as nat);
    } else if b2 > 0 {
        let w = utf8_width(s[0]);
        lemma_char_index_order(s.drop_first(), 0, (b2 - w) as nat);
    }
}

} // verus!
