//! Requests sent to the compositor's command socket, and what following its
//! rolling log decides on each poll.
use crate::config::structs::{join_path, path_join};
use crate::text::{chars_of, lines, lines_of, owned, push_str, slice_chars, string_of, trim, trim_chars, vviews};
use vstd::prelude::*;

verus! {

/// The request for a query answered in JSON: `j/<command>`.
pub fn query_json_command(command: &str) -> (r: String)
    ensures
        r@ == "j/"@ + command@,
{
    let mut v: Vec<char> = Vec::new();
    push_str(&mut v, "j/");
    push_str(&mut v, command);
    string_of(&v)
}

/// The request that runs a dispatcher: `dispatch <args>`.
pub fn dispatch_command(args: &str) -> (r: String)
    ensures
        r@ == "dispatch "@ + args@,
{
    let mut v: Vec<char> = Vec::new();
    push_str(&mut v, "dispatch ");
    push_str(&mut v, args);
    string_of(&v)
}

/// The request for the compositor's rolling log.
pub fn rolling_log_command() -> (r: &'static str)
    ensures
        r@ == "rollinglog"@,
{
    "rollinglog"
}

/// The event socket inside a socket directory: `<dir>/.socket2.sock`.
pub fn socket2_path(socket_dir: &str) -> (r: String)
    ensures
        r@ == path_join(socket_dir@, ".socket2.sock"@),
{
    join_path(socket_dir, ".socket2.sock")
}

/// The trimmed lines of a text that are not blank, in order.
pub open spec fn nonblank_lines(ls: Seq<Seq<char>>) -> Seq<Seq<char>>
    decreases ls.len(),
{
    if ls.len() == 0 {
        Seq::empty()
    } else {
        let init = nonblank_lines(ls.drop_last());
        let t = trim(ls.last());
        if t.len() > 0 {
            init.push(t)
        } else {
            init
        }
    }
}

fn nonblank_trimmed(text: &Vec<char>) -> (r: Vec<String>)
    ensures
        crate::text::svec_view(r@) == nonblank_lines(lines_of(text@)),
{
    let ls = lines(text);
    let ghost all = vviews(ls@);
    let mut r: Vec<String> = Vec::new();
    let mut i: usize = 0;
    assert(all.take(0) =~= Seq::<Seq<char>>::empty());
    while i < ls.len()
        invariant
            i <= ls@.len(),
            all == vviews(ls@),
            crate::text::svec_view(r@) == nonblank_lines(all.take(i as int)),
        decreases ls@.len() - i,
    {
        let t = trim_chars(&ls[i]);
        let ghost before = crate::text::svec_view(r@);
        assert(all.take(i + 1).drop_last() =~= all.take(i as int));
        assert(all.take(i + 1).last() == ls@[i as int]@);
        if t.len() > 0 {
            r.push(string_of(&t));
            assert(crate::text::svec_view(r@) =~= before.push(t@));
        }
        i = i + 1;
    }
    assert(all.take(ls@.len() as int) =~= all);
    r
}

/// The length of `s` in UTF-8 bytes (what `str::len` gives).
pub open spec fn byte_len(s: Seq<char>) -> nat {
    vstd::utf8::encode_utf8(s).len()
}

/// What one poll of the rolling log yields: the lines to log and the new
/// length, in bytes, seen so far. When the log grew, its lines after the old
/// length; when it shrank (rotated), all of its lines; blank lines are skipped
/// and lines are trimmed.
pub open spec fn spec_rolling_log_step(last_len: nat, log: Seq<char>) -> (Seq<Seq<char>>, nat) {
    let n = byte_len(log);
    if n > last_len {
        let k = crate::text::char_index_at_byte(log, last_len).unwrap();
        (nonblank_lines(lines_of(log.subrange(k as int, log.len() as int))), n)
    } else if n < last_len {
        (nonblank_lines(lines_of(log)), n)
    } else {
        (Seq::empty(), last_len)
    }
}

fn utf8_width_of(c: char) -> (r: usize)
    ensures
        r == crate::text::utf8_width(c),
        1 <= r <= 4,
{
    let v = c as u32;
    proof {
        vstd::utf8::char_is_scalar(c);
    }
    if v <= 0x7f {
        1
    } else if v <= 0x7ff {
        2
    } else if v <= 0xffff {
        3
    } else {
        4
    }
}

/// The character index of byte `b` of `v`, when `b` is a character boundary.
fn char_index_of_byte(v: &Vec<char>, b: usize) -> (r: Option<usize>)
    ensures
        match r {
            Some(k) => crate::text::char_index_at_byte(v@, b as nat) == Some(k as nat) && k <= v@.len(),
            None => crate::text::char_index_at_byte(v@, b as nat) is None,
        },
{
    let mut i: usize = 0;
    let mut left: usize = b;
    assert(v@.skip(0) =~= v@);
    while left > 0
        invariant
            i <= v@.len(),
            left <= b,
            crate::text::char_index_at_byte(v@, b as nat) == match crate::text::char_index_at_byte(v@.skip(i as int), left as nat) {
                Some(k) => Some((k + i) as nat),
                None => None::<nat>,
            },
        decreases left,
    {
        if i >= v.len() {
            assert(v@.skip(i as int).len() == 0);
            return None;
        }
        let w = utf8_width_of(v[i]);
        assert(v@.skip(i as int)[0] == v@[i as int]);
        assert(v@.skip(i as int).drop_first() =~= v@.skip(i + 1));
        if left < w {
            return None;
        }
        left = left - w;
        i = i + 1;
    }
    Some(i)
}

/// One poll of the rolling log: when it grew, the new text's non-blank lines;
/// when it shrank (rotated), all of its non-blank lines; else nothing. Lengths
/// are in bytes; the old length must fall on a character boundary of a log
/// that grew (the log text is sliced there).
pub fn rolling_log_step(last_len: usize, log: &str) -> (r: (Vec<String>, usize))
    requires
        byte_len(log@) > last_len ==> crate::text::char_index_at_byte(log@, last_len as nat) is Some,
    ensures
        crate::text::svec_view(r.0@) == spec_rolling_log_step(last_len as nat, log@).0,
        r.1 as nat == spec_rolling_log_step(last_len as nat, log@).1,
{
    let n = log.as_bytes().len();
    let v = chars_of(log);
    if n > last_len {
        let k = match char_index_of_byte(&v, last_len) {
            Some(k) => k,
            None => 0,
        };
        let fresh = slice_chars(&v, k, v.len());
        (nonblank_trimmed(&fresh), n)
    } else if n < last_len {
        (nonblank_trimmed(&v), n)
    } else {
        let r: Vec<String> = Vec::new();
        assert(crate::text::svec_view(r@) =~= Seq::<Seq<char>>::empty());
        (r, last_len)
    }
}

/// The starting position for following the rolling log: its length now, in bytes.
pub fn rolling_log_start(initial: &str) -> (r: usize)
    ensures
        r as nat == byte_len(initial@),
{
    initial.as_bytes().len()
}

} // verus!
