//! 24-bit true colors and the ANSI escapes that render them.
use crate::text::{
    ascii_lower, ascii_lower_seq, ascii_upper, ascii_upper_seq, chars_of, dec, push_dec, push_str,
    string_of,
};
use vstd::prelude::*;

verus! {

/// A 24-bit RGB color.
#[derive(Debug, Clone, Copy, PartialEq, Eq, Structural, Hash)]
pub struct Color {
    pub r: u8,
    pub g: u8,
    pub b: u8,
}

/// Value of a hexadecimal digit (`0-9`, `a-f`, `A-F`).
pub open spec fn hex_value(c: char) -> Option<nat> {
    if '0' <= c && c <= '9' {
        Some((c as u32 - '0' as u32) as nat)
    } else if 'a' <= c && c <= 'f' {
        Some((c as u32 - 'a' as u32 + 10) as nat)
    } else if 'A' <= c && c <= 'F' {
        Some((c as u32 - 'A' as u32 + 10) as nat)
    } else {
        None
    }
}

/// The byte two hexadecimal digits denote.
pub open spec fn hex_byte(c0: char, c1: char) -> u8 {
    (hex_value(c0).unwrap() * 16 + hex_value(c1).unwrap()) as u8
}

/// Whether every character of `s` is a hexadecimal digit.
pub open spec fn all_hex_digits(s: Seq<char>) -> bool {
    forall|i: int| 0 <= i < s.len() ==> #[trigger] hex_value(s[i]) is Some
}

/// `s` with every leading `#` removed.
pub open spec fn strip_hashes(s: Seq<char>) -> Seq<char>
    decreases s.len(),
{
    if s.len() > 0 && s[0] == '#' {
        strip_hashes(s.drop_first())
    } else {
        s
    }
}

/// The color a hex string such as `#RRGGBB` denotes; anything that is not
/// exactly six hexadecimal digits after the leading `#`s gives white.
pub open spec fn spec_from_hex(s: Seq<char>) -> Color {
    let h = strip_hashes(s);
    if h.len() == 6 && all_hex_digits(h) {
        Color { r: hex_byte(h[0], h[1]), g: hex_byte(h[2], h[3]), b: hex_byte(h[4], h[5]) }
    } else {
        Color { r: 255, g: 255, b: 255 }
    }
}

/// The SGR escape that sets this foreground color.
pub open spec fn spec_fg_ansi(c: Color) -> Seq<char> {
    "\x1b[38;2;"@ + dec(c.r as nat) + ";"@ + dec(c.g as nat) + ";"@ + dec(c.b as nat) + "m"@
}

/// The SGR escape that sets this background color.
pub open spec fn spec_bg_ansi(c: Color) -> Seq<char> {
    "\x1b[48;2;"@ + dec(c.r as nat) + ";"@ + dec(c.g as nat) + ";"@ + dec(c.b as nat) + "m"@
}

/// The escape that resets all styling.
pub open spec fn spec_reset() -> Seq<char> {
    "\x1b[0m"@
}

/// Lowercase hexadecimal digit for `d < 16`.
pub open spec fn hex_digit(d: nat) -> char {
    if d < 10 {
        ((d + 48) as u8) as char
    } else {
        ((d + 87) as u8) as char
    }
}

/// Two lowercase hex digits for a byte.
pub open spec fn hex2(v: u8) -> Seq<char> {
    seq![hex_digit((v / 16) as nat), hex_digit((v % 16) as nat)]
}

fn hex_value_of(c: char) -> (r: Option<u8>)
    ensures
        match r {
            Some(v) => hex_value(c) == Some(v as nat) && v < 16,
            None => hex_value(c) is None,
        },
{
    if '0' <= c && c <= '9' {
        Some((c as u32 - '0' as u32) as u8)
    } else if 'a' <= c && c <= 'f' {
        Some((c as u32 - 'a' as u32 + 10) as u8)
    } else if 'A' <= c && c <= 'F' {
        Some((c as u32 - 'A' as u32 + 10) as u8)
    } else {
        None
    }
}

fn push_hex2(v: &mut Vec<char>, x: u8)
    ensures
        final(v)@ == old(v)@ + hex2(x),
{
    let hi = x / 16;
    let lo = x % 16;
    let c_hi = if hi < 10 {
        (hi + 48) as char
    } else {
        (hi + 87) as char
    };
    let c_lo = if lo < 10 {
        (lo + 48) as char
    } else {
        (lo + 87) as char
    };
    v.push(c_hi);
    v.push(c_lo);
    assert(v@ =~= old(v)@ + hex2(x));
}

impl Color {
    /// The escape that resets all styling.
    pub const RESET: &'static str = "\x1b[0m";

    /// A color from its three components.
    pub fn new(r: u8, g: u8, b: u8) -> (c: Color)
        ensures
            c == (Color { r, g, b }),
    {
        Color { r, g, b }
    }

    /// Parses `#RRGGBB` (leading `#`s optional); anything else gives white.
    pub fn from_hex(hex: &str) -> (c: Color)
        ensures
            c == spec_from_hex(hex@),
    {
        let v = chars_of(hex);
        let mut i: usize = 0;
        assert(v@.subrange(0, v@.len() as int) =~= v@);
        while i < v.len() && v[i] == '#'
            invariant
                i <= v@.len(),
                strip_hashes(v@) == strip_hashes(v@.subrange(i as int, v@.len() as int)),
            decreases v@.len() - i,
        {
            proof {
                let t = v@.subrange(i as int, v@.len() as int);
                assert(t.drop_first() =~= v@.subrange(i + 1, v@.len() as int));
            }
            i = i + 1;
        }
        let ghost h = v@.subrange(i as int, v@.len() as int);
        proof {
            assert(v@.subrange(0, v@.len() as int) =~= v@);
            if h.len() > 0 {
                assert(h[0] == v@[i as int]);
            }
            assert(strip_hashes(h) == h);
        }
        if v.len() - i != 6 {
            return Color::white();
        }
        let mut digits: Vec<u8> = Vec::new();
        let mut k: usize = i;
        while k < v.len()
            invariant
                i <= k <= v@.len(),
                v@.len() == i + 6,
                h == v@.subrange(i as int, v@.len() as int),
                strip_hashes(v@) == h,
                v@ == hex@,
                digits@.len() == k - i,
                forall|j: int| 0 <= j < k - i ==> hex_value(#[trigger] h[j]) == Some(digits@[j] as nat) && digits@[j] < 16,
            decreases v@.len() - k,
        {
            assert(h[k - i] == v@[k as int]);
            match hex_value_of(v[k]) {
                Some(d) => digits.push(d),
                None => {
                    assert(!all_hex_digits(h));
                    return Color::white();
                },
            }
            k = k + 1;
        }
        assert(all_hex_digits(h));
        proof {
            assert(hex_value(h[0]) == Some(digits@[0] as nat) && digits@[0] < 16);
            assert(hex_value(h[1]) == Some(digits@[1] as nat) && digits@[1] < 16);
            assert(hex_value(h[2]) == Some(digits@[2] as nat) && digits@[2] < 16);
            assert(hex_value(h[3]) == Some(digits@[3] as nat) && digits@[3] < 16);
            assert(hex_value(h[4]) == Some(digits@[4] as nat) && digits@[4] < 16);
            assert(hex_value(h[5]) == Some(digits@[5] as nat) && digits@[5] < 16);
        }
        Color {
            r: digits[0] * 16 + digits[1],
            g: digits[2] * 16 + digits[3],
            b: digits[4] * 16 + digits[5],
        }
    }

    /// The foreground escape `ESC[38;2;R;G;Bm`.
    pub fn fg_ansi(self) -> (s: String)
        ensures
            s@ == spec_fg_ansi(self),
    {
        let mut v: Vec<char> = Vec::new();
        push_str(&mut v, "\x1b[38;2;");
        push_dec(&mut v, self.r as u64);
        push_str(&mut v, ";");
        push_dec(&mut v, self.g as u64);
        push_str(&mut v, ";");
        push_dec(&mut v, self.b as u64);
        push_str(&mut v, "m");
        assert(v@ =~= spec_fg_ansi(self));
        string_of(&v)
    }

    /// The background escape `ESC[48;2;R;G;Bm`.
    pub fn bg_ansi(self) -> (s: String)
        ensures
            s@ == spec_bg_ansi(self),
    {
        let mut v: Vec<char> = Vec::new();
        push_str(&mut v, "\x1b[48;2;");
        push_dec(&mut v, self.r as u64);
        push_str(&mut v, ";");
        push_dec(&mut v, self.g as u64);
        push_str(&mut v, ";");
        push_dec(&mut v, self.b as u64);
        push_str(&mut v, "m");
        assert(v@ =~= spec_bg_ansi(self));
        string_of(&v)
    }

    /// `#rrggbb` in lowercase hex (what `Display` prints for a color).
    pub fn to_hex_string(self) -> (s: String)
        ensures
            s@ == seq!['#'] + hex2(self.r) + hex2(self.g) + hex2(self.b),
    {
        let mut v: Vec<char> = Vec::new();
        v.push('#');
        push_hex2(&mut v, self.r);
        push_hex2(&mut v, self.g);
        push_hex2(&mut v, self.b);
        string_of(&v)
    }

    pub fn white() -> (c: Color)
        ensures
            c == (Color { r: 255, g: 255, b: 255 }),
    {
        Color::new(255, 255, 255)
    }

    pub fn green() -> (c: Color)
        ensures
            c == (Color { r: 80, g: 250, b: 123 }),
    {
        Color::new(80, 250, 123)
    }

    pub fn yellow() -> (c: Color)
        ensures
            c == (Color { r: 241, g: 250, b: 140 }),
    {
        Color::new(241, 250, 140)
    }

    pub fn cyan() -> (c: Color)
        ensures
            c == (Color { r: 139, g: 233, b: 253 }),
    {
        Color::new(139, 233, 253)
    }

    pub fn red() -> (c: Color)
        ensures
            c == (Color { r: 255, g: 85, b: 85 }),
    {
        Color::new(255, 85, 85)
    }

    pub fn purple() -> (c: Color)
        ensures
            c == (Color { r: 189, g: 147, b: 249 }),
    {
        Color::new(189, 147, 249)
    }

    pub fn pink() -> (c: Color)
        ensures
            c == (Color { r: 255, g: 121, b: 198 }),
    {
        Color::new(255, 121, 198)
    }

    pub fn orange() -> (c: Color)
        ensures
            c == (Color { r: 255, g: 184, b: 108 }),
    {
        Color::new(255, 184, 108)
    }

    pub fn blue() -> (c: Color)
        ensures
            c == (Color { r: 98, g: 114, b: 164 }),
    {
        Color::new(98, 114, 164)
    }
}

impl View for Color {
    type V = Color;

    open spec fn view(&self) -> Color {
        *self
    }
}

impl crate::strmap::DeepCopy for Color {
    fn deep_copy(&self) -> (r: Color) {
        *self
    }
}

impl Default for Color {
    fn default() -> (c: Color)
        ensures
            c == (Color { r: 0, g: 0, b: 0 }),
    {
        Color::new(0, 0, 0)
    }
}

/// `text` in the foreground color, followed by a reset.
pub fn colorize(text: &str, color: Color) -> (s: String)
    ensures
        s@ == spec_fg_ansi(color) + text@ + spec_reset(),
{
    let fg = color.fg_ansi();
    let mut v = chars_of(fg.as_str());
    push_str(&mut v, text);
    push_str(&mut v, Color::RESET);
    string_of(&v)
}

/// `text` with both foreground and background colors, followed by a reset.
pub fn colorize_bg(text: &str, fg: Color, bg: Color) -> (s: String)
    ensures
        s@ == spec_fg_ansi(fg) + spec_bg_ansi(bg) + text@ + spec_reset(),
{
    let f = fg.fg_ansi();
    let b = bg.bg_ansi();
    let mut v = chars_of(f.as_str());
    push_str(&mut v, b.as_str());
    push_str(&mut v, text);
    push_str(&mut v, Color::RESET);
    string_of(&v)
}

/// The digit `hex2` writes reads back as its value.
proof fn lemma_hex_digit_value(d: nat)
    requires
        d < 16,
    ensures
        hex_value(hex_digit(d)) == Some(d),
{
    if d < 10 {
        assert(((d + 48) as u8) as char as u32 == d + 48);
    } else {
        assert(((d + 87) as u8) as char as u32 == d + 87);
    }
}

/// Reading back the hex form of a color gives the color: `from_hex` undoes
/// `to_hex_string`.
pub proof fn law_hex_round_trip(c: Color)
    ensures
        spec_from_hex(seq!['#'] + hex2(c.r) + hex2(c.g) + hex2(c.b)) == c,
{
    let s = seq!['#'] + hex2(c.r) + hex2(c.g) + hex2(c.b);
    let h = hex2(c.r) + hex2(c.g) + hex2(c.b);
    assert(s.drop_first() =~= h);
    assert(strip_hashes(s) == strip_hashes(h));
    lemma_hex_digit_value((c.r / 16) as nat);
    lemma_hex_digit_value((c.r % 16) as nat);
    lemma_hex_digit_value((c.g / 16) as nat);
    lemma_hex_digit_value((c.g % 16) as nat);
    lemma_hex_digit_value((c.b / 16) as nat);
    lemma_hex_digit_value((c.b % 16) as nat);
    assert(h[0] == hex_digit((c.r / 16) as nat));
    assert(h[1] == hex_digit((c.r % 16) as nat));
    assert(h[2] == hex_digit((c.g / 16) as nat));
    assert(h[3] == hex_digit((c.g % 16) as nat));
    assert(h[4] == hex_digit((c.b / 16) as nat));
    assert(h[5] == hex_digit((c.b % 16) as nat));
    assert(h[0] != '#');
    assert(strip_hashes(h) == h);
    assert(all_hex_digits(h)) by {
        assert forall|i: int| 0 <= i < h.len() implies #[trigger] hex_value(h[i]) is Some by {
            if i == 0 {} else if i == 1 {} else if i == 2 {} else if i == 3 {} else if i == 4 {} else {}
        }
    }
}

/// A character and its ASCII lowercase form are the same hex digit, or both none.
proof fn lemma_hex_value_ignores_case(c: char)
    ensures
        hex_value(ascii_lower(c)) == hex_value(c),
{
}

proof fn lemma_strip_hashes_lower(s: Seq<char>)
    ensures
        strip_hashes(ascii_lower_seq(s)) == ascii_lower_seq(strip_hashes(s)),
    decreases s.len(),
{
    if s.len() > 0 {
        assert(ascii_lower_seq(s)[0] == ascii_lower(s[0]));
        assert(ascii_lower_seq(s).drop_first() =~= ascii_lower_seq(s.drop_first()));
        lemma_strip_hashes_lower(s.drop_first());
    } else {
        assert(ascii_lower_seq(s) =~= s);
    }
}

/// Hex colors ignore the case of their digits: `#FF5555` and `#ff5555` are
/// the same color, and any text reads as the color its lowercase form reads as.
pub proof fn law_hex_ignores_case(s: Seq<char>)
    ensures
        spec_from_hex(s) == spec_from_hex(ascii_lower_seq(s)),
{
    let h = strip_hashes(s);
    let l = ascii_lower_seq(h);
    lemma_strip_hashes_lower(s);
    assert forall|i: int| 0 <= i < h.len() implies #[trigger] hex_value(l[i]) == hex_value(h[i]) by {
        lemma_hex_value_ignores_case(h[i]);
    }
    if h.len() == 6 {
        assert(all_hex_digits(h) == all_hex_digits(l)) by {
            if all_hex_digits(h) {
                assert forall|i: int| 0 <= i < l.len() implies #[trigger] hex_value(l[i]) is Some by {
                    assert(hex_value(l[i]) == hex_value(h[i]));
                }
            }
            if all_hex_digits(l) {
                assert forall|i: int| 0 <= i < h.len() implies #[trigger] hex_value(h[i]) is Some by {
                    assert(hex_value(l[i]) == hex_value(h[i]));
                }
            }
        }
        assert(hex_value(l[0]) == hex_value(h[0]) && hex_value(l[1]) == hex_value(h[1]));
        assert(hex_value(l[2]) == hex_value(h[2]) && hex_value(l[3]) == hex_value(h[3]));
        assert(hex_value(l[4]) == hex_value(h[4]) && hex_value(l[5]) == hex_value(h[5]));
    }
}

/// The hex form of a color written with uppercase digits reads back as the
/// color too (`#FF5555` is red 255, green 85, blue 85).
pub proof fn law_uppercase_hex_round_trip(c: Color)
    ensures
        spec_from_hex(seq!['#'] + ascii_upper_seq(hex2(c.r) + hex2(c.g) + hex2(c.b))) == c,
{
    let h = hex2(c.r) + hex2(c.g) + hex2(c.b);
    let up = seq!['#'] + ascii_upper_seq(h);
    let low = seq!['#'] + h;
    law_hex_ignores_case(up);
    lemma_hex_digit_value((c.r / 16) as nat);
    lemma_hex_digit_value((c.r % 16) as nat);
    lemma_hex_digit_value((c.g / 16) as nat);
    lemma_hex_digit_value((c.g % 16) as nat);
    lemma_hex_digit_value((c.b / 16) as nat);
    lemma_hex_digit_value((c.b % 16) as nat);
    assert(ascii_lower_seq(up) =~= low) by {
        assert forall|i: int| 0 <= i < low.len() implies ascii_lower_seq(up)[i] == low[i] by {
            if i > 0 {
                let x = h[i - 1];
                assert(up[i] == ascii_upper(x));
                assert(hex_value(x) is Some) by {
                    if i - 1 < 2 {
                    } else if i - 1 < 4 {
                    } else {
                    }
                }
            }
        }
    }
    assert(low =~= seq!['#'] + hex2(c.r) + hex2(c.g) + hex2(c.b));
    law_hex_round_trip(c);
}

/// Every character of the `#rrggbb` form of a color after the `#` is a hex digit.
pub proof fn lemma_hex_form_digits(c: Color)
    ensures
        (seq!['#'] + hex2(c.r) + hex2(c.g) + hex2(c.b)).len() == 7,
        (seq!['#'] + hex2(c.r) + hex2(c.g) + hex2(c.b))[0] == '#',
        forall|i: int|
            1 <= i < 7 ==> #[trigger] hex_value((seq!['#'] + hex2(c.r) + hex2(c.g) + hex2(c.b))[i])
                is Some,
{
    let s = seq!['#'] + hex2(c.r) + hex2(c.g) + hex2(c.b);
    lemma_hex_digit_value((c.r / 16) as nat);
    lemma_hex_digit_value((c.r % 16) as nat);
    lemma_hex_digit_value((c.g / 16) as nat);
    lemma_hex_digit_value((c.g % 16) as nat);
    lemma_hex_digit_value((c.b / 16) as nat);
    lemma_hex_digit_value((c.b % 16) as nat);
    assert(s[1] == hex_digit((c.r / 16) as nat) && s[2] == hex_digit((c.r % 16) as nat));
    assert(s[3] == hex_digit((c.g / 16) as nat) && s[4] == hex_digit((c.g % 16) as nat));
    assert(s[5] == hex_digit((c.b / 16) as nat) && s[6] == hex_digit((c.b % 16) as nat));
}

} // verus!
