//! Byte counts for people: `512 B`, `1.50 KB`, `2.00 GB`.
use crate::text::{
    ascii_lower, ascii_upper_seq, is_ascii_chars, trim_end, trim_start, chars_of, dec, digit_char, ends_with, has_suffix, push_dec, push_str, uppercased, string_of,
    strip_end, to_uppercase, trim, trim_chars, trim_end_matches, trim_str,
};
use vstd::arithmetic::div_mod::{lemma_div_denominator, lemma_fundamental_div_mod};
use vstd::prelude::*;

verus! {

/// The spacing of the 64-bit floating-point numbers around `b`: 1 below 2^53,
/// doubling with each further bit.
pub open spec fn f64_ulp(b: nat) -> nat
    decreases b,
{
    if b < 0x20_0000_0000_0000 {
        1
    } else {
        2 * f64_ulp(b / 2)
    }
}

/// `x / d` rounded to the nearest integer, ties to even.
pub open spec fn round_half_even(x: nat, d: nat) -> nat {
    let q = x / d;
    let r = x % d;
    if 2 * r < d {
        q
    } else if 2 * r > d {
        q + 1
    } else if q % 2 == 0 {
        q
    } else {
        q + 1
    }
}

/// The value of `b as f64` (round to nearest, ties to even).
pub open spec fn nearest_f64(b: nat) -> nat {
    round_half_even(b, f64_ulp(b)) * f64_ulp(b)
}

/// `b as f64 / unit` in hundredths, rounded half to even as `{:.2}` prints it.
pub open spec fn hundredths(b: nat, unit: nat) -> nat {
    round_half_even(nearest_f64(b) * 100, unit)
}

/// A count of hundredths with two decimals: `dec(h / 100)`, a point, two digits.
pub open spec fn fixed2(h: nat) -> Seq<char> {
    dec(h / 100) + seq!['.', digit_char((h % 100) / 10), digit_char(h % 10)]
}

/// How `format_size` shows a byte count: bytes below 1 KiB, else KB, MB or GB
/// (powers of 1024) with two decimals.
pub open spec fn spec_format_size(b: nat) -> Seq<char> {
    if b >= 0x4000_0000 {
        fixed2(hundredths(b, 0x4000_0000)) + " GB"@
    } else if b >= 0x10_0000 {
        fixed2(hundredths(b, 0x10_0000)) + " MB"@
    } else if b >= 1024 {
        fixed2(hundredths(b, 1024)) + " KB"@
    } else {
        dec(b) + " B"@
    }
}

fn ulp_of(b: u64) -> (d: u128)
    ensures
        d == f64_ulp(b as nat),
        1 <= d,
        d <= 1 || d <= b,
{
    let mut x: u128 = b as u128;
    let mut d: u128 = 1;
    while x >= 0x20_0000_0000_0000
        invariant
            d >= 1,
            x == (b as nat) / (d as nat),
            d * x <= b,
            f64_ulp(b as nat) == d * f64_ulp(x as nat),
            d <= 1 || d <= b,
        decreases x,
    {
        proof {
            lemma_div_denominator(b as int, d as int, 2);
            assert(d <= d * x) by (nonlinear_arith)
                requires
                    x >= 1,
                    d >= 1,
            ;
            assert(f64_ulp(x as nat) == 2 * f64_ulp((x / 2) as nat));
            assert(d * (2 * f64_ulp((x / 2) as nat)) == (2 * d) * f64_ulp((x / 2) as nat))
                by (nonlinear_arith);
            assert((2 * d) * (x / 2) <= d * x) by (nonlinear_arith)
                requires
                    x >= 0,
                    d >= 1,
            ;
            assert(2 * d <= (2 * d) * (x / 2)) by (nonlinear_arith)
                requires
                    x / 2 >= 1,
                    d >= 1,
            ;
        }
        x = x / 2;
        d = d * 2;
    }
    assert(f64_ulp(x as nat) == 1);
    assert(d * f64_ulp(x as nat) == d) by (nonlinear_arith)
        requires
            f64_ulp(x as nat) == 1,
    ;
    d
}

fn round_half_even_u128(x: u128, d: u128) -> (r: u128)
    requires
        1 <= d <= 0x1_0000_0000_0000_0000_0000,
        x <= 0x1_0000_0000_0000_0000_0000_0000,
    ensures
        r == round_half_even(x as nat, d as nat),
        r <= x / d + 1,
{
    let q = x / d;
    let r = x % d;
    if 2 * r < d {
        q
    } else if 2 * r > d {
        q + 1
    } else if q % 2 == 0 {
        q
    } else {
        q + 1
    }
}

fn push_fixed2(v: &mut Vec<char>, h: u128)
    requires
        h / 100 <= u64::MAX,
    ensures
        final(v)@ == old(v)@ + fixed2(h as nat),
{
    let whole = (h / 100) as u64;
    let frac = (h % 100) as u8;
    let ghost start = v@;
    push_dec(v, whole);
    v.push('.');
    v.push(((frac / 10) + 48) as char);
    v.push(((frac % 10) + 48) as char);
    proof {
        assert(((frac / 10 + 48) as u8) as char == digit_char(((h % 100) / 10) as nat));
        assert((frac % 10) as nat == (h % 10) as nat) by {
            assert((h % 100) % 10 == h % 10) by (nonlinear_arith);
        }
        assert(((frac % 10 + 48) as u8) as char == digit_char((h % 10) as nat));
        assert(v@ =~= start + fixed2(h as nat));
    }
}

/// A byte count for people (`512 B`, `1.50 KB`, `2.00 GB`).
pub fn format_size(bytes: u64) -> (r: String)
    ensures
        r@ == spec_format_size(bytes as nat),
{
    let mut v: Vec<char> = Vec::new();
    if bytes < 1024 {
        push_dec(&mut v, bytes);
        push_str(&mut v, " B");
        return string_of(&v);
    }
    let d = ulp_of(bytes);
    let q = round_half_even_u128(bytes as u128, d);
    proof {
        lemma_fundamental_div_mod(bytes as int, d as int);
        assert(q * d <= (bytes as u128 / d + 1) * d) by (nonlinear_arith)
            requires
                q <= bytes as u128 / d + 1,
                d >= 1,
        ;
        assert((bytes as u128 / d + 1) * d <= bytes as u128 + d) by (nonlinear_arith)
            requires
                d >= 1,
                d * (bytes as u128 / d) <= bytes as u128,
        ;
    }
    let f = q * d;
    let unit: u128 = if bytes >= 0x4000_0000 {
        0x4000_0000
    } else if bytes >= 0x10_0000 {
        0x10_0000
    } else {
        1024
    };
    let h = round_half_even_u128(f * 100, unit);
    proof {
        let fx = (f * 100) as int;
        vstd::arithmetic::div_mod::lemma_div_is_ordered_by_denominator(fx, 1024, unit as int);
        assert(fx / (unit as int) <= fx / 1024);
    }
    push_fixed2(&mut v, h);
    if bytes >= 0x4000_0000 {
        push_str(&mut v, " GB");
    } else if bytes >= 0x10_0000 {
        push_str(&mut v, " MB");
    } else {
        push_str(&mut v, " KB");
    }
    string_of(&v)
}

/// `s` without trailing repetitions of the two-letter unit `ab` (`str::trim_end_matches("GB")`).
pub open spec fn trim_end_unit(s: Seq<char>, a: char, b: char) -> Seq<char>
    decreases s.len(),
{
    if s.len() >= 2 && s[s.len() - 2] == a && s[s.len() - 1] == b {
        trim_end_unit(s.subrange(0, s.len() - 2), a, b)
    } else {
        s
    }
}

/// A size text split into its number and the multiplier its unit stands for:
/// trimmed and uppercased, a trailing `GB`/`G`, `MB`/`M` or `KB`/`K` selects
/// 1024^3, 1024^2 or 1024 and is removed (with any repetitions), and the
/// number is trimmed; without a unit the multiplier is 1.
pub open spec fn spec_size_parts(s: Seq<char>) -> (Seq<char>, nat) {
    let u = uppercased(trim(s));
    if has_suffix(u, "GB"@) || has_suffix(u, "G"@) {
        (trim(trim_end_matches(trim_end_unit(u, 'G', 'B'), 'G')), 0x4000_0000)
    } else if has_suffix(u, "MB"@) || has_suffix(u, "M"@) {
        (trim(trim_end_matches(trim_end_unit(u, 'M', 'B'), 'M')), 0x10_0000)
    } else if has_suffix(u, "KB"@) || has_suffix(u, "K"@) {
        (trim(trim_end_matches(trim_end_unit(u, 'K', 'B'), 'K')), 1024)
    } else {
        (trim(u), 1)
    }
}

fn strip_end_unit(v: &Vec<char>, a: char, b: char) -> (r: Vec<char>)
    ensures
        r@ == trim_end_unit(v@, a, b),
{
    let mut k: usize = v.len();
    assert(v@.subrange(0, v@.len() as int) =~= v@);
    while k >= 2 && v[k - 2] == a && v[k - 1] == b
        invariant
            k <= v@.len(),
            trim_end_unit(v@, a, b) == trim_end_unit(v@.subrange(0, k as int), a, b),
        decreases k,
    {
        assert(v@.subrange(0, k as int).subrange(0, k - 2) =~= v@.subrange(0, k - 2));
        k = k - 2;
    }
    let r = crate::text::slice_chars(v, 0, k);
    if r.len() >= 2 {
        assert(r@[r@.len() - 2] == v@[k - 2]);
        assert(r@[r@.len() - 1] == v@[k - 1]);
    }
    r
}

/// Splits a size text such as `500M` or ` 1.5 gb ` into the number text and
/// the multiplier of its unit; reading the number is left to the caller.
pub fn split_size_suffix(s: &str) -> (r: (String, u64))
    ensures
        r.0@ == spec_size_parts(s@).0,
        r.1 as nat == spec_size_parts(s@).1,
{
    let t = trim_str(s);
    let up = to_uppercase(t.as_str());
    let u = chars_of(up.as_str());
    if ends_with(&u, "GB") || ends_with(&u, "G") {
        let a = strip_end_unit(&u, 'G', 'B');
        let b = strip_end(&a, 'G');
        (string_of(&trim_chars(&b)), 0x4000_0000)
    } else if ends_with(&u, "MB") || ends_with(&u, "M") {
        let a = strip_end_unit(&u, 'M', 'B');
        let b = strip_end(&a, 'M');
        (string_of(&trim_chars(&b)), 0x10_0000)
    } else if ends_with(&u, "KB") || ends_with(&u, "K") {
        let a = strip_end_unit(&u, 'K', 'B');
        let b = strip_end(&a, 'K');
        (string_of(&trim_chars(&b)), 1024)
    } else {
        (string_of(&trim_chars(&u)), 1)
    }
}

/// Whether `c` may appear in the number part of a size: a decimal digit or a point.
pub open spec fn is_number_char(c: char) -> bool {
    ('0' <= c && c <= '9') || c == '.'
}

proof fn lemma_has_suffix_one(u: Seq<char>, a: char)
    ensures
        has_suffix(u, seq![a]) <==> (u.len() >= 1 && u[u.len() - 1] == a),
{
    if u.len() >= 1 && u[u.len() - 1] == a {
        assert(u.subrange(u.len() - 1, u.len() as int) =~= seq![a]);
    }
    if has_suffix(u, seq![a]) {
        assert(u.subrange(u.len() - 1, u.len() as int)[0] == u[u.len() - 1]);
    }
}

proof fn lemma_has_suffix_two(u: Seq<char>, a: char, b: char)
    ensures
        has_suffix(u, seq![a, b]) <==> (u.len() >= 2 && u[u.len() - 2] == a && u[u.len() - 1] == b),
{
    if u.len() >= 2 && u[u.len() - 2] == a && u[u.len() - 1] == b {
        assert(u.subrange(u.len() - 2, u.len() as int) =~= seq![a, b]);
    }
    if has_suffix(u, seq![a, b]) {
        assert(u.subrange(u.len() - 2, u.len() as int)[0] == u[u.len() - 2]);
        assert(u.subrange(u.len() - 2, u.len() as int)[1] == u[u.len() - 1]);
    }
}

/// The size text `d` followed by `tail` (an uppercase unit, optionally with
/// `B`) splits into `d` and the unit's multiplier.
proof fn lemma_size_parts_of(x: Seq<char>, d: Seq<char>, tail: Seq<char>, unit: char)
    requires
        d.len() > 0,
        forall|i: int| 0 <= i < d.len() ==> is_number_char(#[trigger] d[i]),
        unit == 'K' || unit == 'M' || unit == 'G',
        tail == seq![unit] || tail == seq![unit, 'B'],
        is_ascii_chars(x),
        x.len() == d.len() + tail.len(),
        x.len() > 0 && !crate::text::is_ws(x[0]) && !crate::text::is_ws(x.last()),
        ascii_upper_seq(x) == d + tail,
    ensures
        spec_size_parts(x) == (d, if unit == 'K' {
            1024nat
        } else if unit == 'M' {
            0x10_0000nat
        } else {
            0x4000_0000nat
        }),
{
    reveal_strlit("GB");
    reveal_strlit("G");
    reveal_strlit("MB");
    reveal_strlit("M");
    reveal_strlit("KB");
    reveal_strlit("K");
    assert(trim_start(x) == x);
    assert(trim_end(x) == x);
    assert(trim(x) == x);
    let u = d + tail;
    assert(uppercased(x) == u);
    assert("GB"@ =~= seq!['G', 'B'] && "MB"@ =~= seq!['M', 'B'] && "KB"@ =~= seq!['K', 'B']);
    assert("G"@ =~= seq!['G'] && "M"@ =~= seq!['M'] && "K"@ =~= seq!['K']);
    lemma_has_suffix_two(u, 'G', 'B');
    lemma_has_suffix_two(u, 'M', 'B');
    lemma_has_suffix_two(u, 'K', 'B');
    lemma_has_suffix_one(u, 'G');
    lemma_has_suffix_one(u, 'M');
    lemma_has_suffix_one(u, 'K');
    let last = d[d.len() - 1];
    assert(is_number_char(last));
    assert(u[d.len() - 1] == last);
    assert(u.subrange(0, d.len() as int) =~= d);
    assert(trim_end_unit(d, unit, 'B') == d);
    if tail == seq![unit] {
        assert(u.len() == d.len() + 1);
        assert(u[u.len() - 1] == unit);
        assert(trim_end_unit(u, unit, 'B') == u);
        assert(u.drop_last() =~= d);
        assert(trim_end_matches(u, unit) == trim_end_matches(d, unit));
    } else {
        assert(u.len() == d.len() + 2);
        assert(u[u.len() - 1] == 'B' && u[u.len() - 2] == unit);
        assert(trim_end_unit(u, unit, 'B') == trim_end_unit(d, unit, 'B'));
    }
    assert(trim_end_matches(d, unit) == d);
    assert(!crate::text::is_ws(d[0]) && !crate::text::is_ws(d.last()));
    assert(trim_start(d) == d);
    assert(trim_end(d) == d);
}

/// A size written as a decimal number and a unit letter `K`, `M` or `G` (any
/// case), with or without a following `B`, splits into that number and 1024,
/// 1024² or 1024³.
pub proof fn law_size_unit_suffix(d: Seq<char>, unit: char)
    requires
        d.len() > 0,
        forall|i: int| 0 <= i < d.len() ==> is_number_char(#[trigger] d[i]),
        unit == 'K' || unit == 'M' || unit == 'G',
    ensures
        spec_size_parts(d + seq![unit]) == (d, if unit == 'K' {
            1024nat
        } else if unit == 'M' {
            0x10_0000nat
        } else {
            0x4000_0000nat
        }),
        spec_size_parts(d + seq![ascii_lower(unit)]) == spec_size_parts(d + seq![unit]),
        spec_size_parts(d + seq![unit, 'B']) == spec_size_parts(d + seq![unit]),
        spec_size_parts(d + seq![ascii_lower(unit), 'b']) == spec_size_parts(d + seq![unit]),
{
    let lu = ascii_lower(unit);
    let xs = seq![d + seq![unit], d + seq![lu], d + seq![unit, 'B'], d + seq![lu, 'b']];
    assert forall|k: int| 0 <= k < 4 implies ascii_upper_seq(#[trigger] xs[k]) == d + (if k % 2 == 0 {
        seq![unit]
    } else {
        seq![unit]
    }) + (if k >= 2 {
        seq!['B']
    } else {
        Seq::<char>::empty()
    }) && is_ascii_chars(xs[k]) by {
        let x = xs[k];
        let want = d + seq![unit] + (if k >= 2 {
            seq!['B']
        } else {
            Seq::<char>::empty()
        });
        assert(x.len() == want.len());
        assert forall|i: int| 0 <= i < x.len() implies ascii_upper_seq(x)[i] == want[i]
            && crate::text::is_ascii_char(#[trigger] x[i]) by {
            if i < d.len() {
                assert(x[i] == d[i]);
            }
        }
        assert(ascii_upper_seq(x) =~= want);
    }
    let t1 = seq![unit];
    let t2 = seq![unit, 'B'];
    assert(d + seq![unit] + Seq::<char>::empty() =~= d + t1);
    assert(d + seq![unit] + seq!['B'] =~= d + t2);
    assert(xs[0].last() == unit && xs[1].last() == lu && xs[2].last() == 'B' && xs[3].last() == 'b');
    assert(xs[0][0] == d[0] && xs[1][0] == d[0] && xs[2][0] == d[0] && xs[3][0] == d[0]);
    lemma_size_parts_of(xs[0], d, t1, unit);
    lemma_size_parts_of(xs[1], d, t1, unit);
    lemma_size_parts_of(xs[2], d, t2, unit);
    lemma_size_parts_of(xs[3], d, t2, unit);
}

/// A size written as a bare decimal number has no unit: it splits into the
/// number and the multiplier 1.
pub proof fn law_size_without_unit(d: Seq<char>)
    requires
        d.len() > 0,
        forall|i: int| 0 <= i < d.len() ==> is_number_char(#[trigger] d[i]),
    ensures
        spec_size_parts(d) == (d, 1nat),
{
    reveal_strlit("GB");
    reveal_strlit("G");
    reveal_strlit("MB");
    reveal_strlit("M");
    reveal_strlit("KB");
    reveal_strlit("K");
    assert(is_number_char(d[0]) && is_number_char(d.last()));
    assert(trim_start(d) == d);
    assert(trim_end(d) == d);
    assert(is_ascii_chars(d)) by {
        assert forall|i: int| 0 <= i < d.len() implies crate::text::is_ascii_char(#[trigger] d[i]) by {
            assert(is_number_char(d[i]));
        }
    }
    assert(ascii_upper_seq(d) =~= d) by {
        assert forall|i: int| 0 <= i < d.len() implies ascii_upper_seq(d)[i] == d[i] by {
            assert(is_number_char(d[i]));
        }
    }
    assert("GB"@ =~= seq!['G', 'B'] && "MB"@ =~= seq!['M', 'B'] && "KB"@ =~= seq!['K', 'B']);
    assert("G"@ =~= seq!['G'] && "M"@ =~= seq!['M'] && "K"@ =~= seq!['K']);
    lemma_has_suffix_two(d, 'G', 'B');
    lemma_has_suffix_two(d, 'M', 'B');
    lemma_has_suffix_two(d, 'K', 'B');
    lemma_has_suffix_one(d, 'G');
    lemma_has_suffix_one(d, 'M');
    lemma_has_suffix_one(d, 'K');
    assert(is_number_char(d[d.len() - 1]));
}

} // verus!
