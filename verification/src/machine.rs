//! The machine identifier that the key store's key is derived from: the
//! `IOPlatformUUID` that macOS's `ioreg` reports.

use vstd::prelude::*;
use crate::commands::opt_text;
use crate::text::{collect_chars, line_len, string_from_chars};

verus! {

/// Number of characters of `s` before its first `c` (all of them when there
/// is none).
pub open spec fn len_before(s: Seq<char>, c: char) -> nat
    decreases s.len(),
{
    if s.len() == 0 || s[0] == c {
        0
    } else {
        1 + len_before(s.drop_first(), c)
    }
}

/// The first line of `s`, as `str::lines` gives it: the text before the
/// first line feed, without the carriage return that ends it when a line
/// feed follows.
pub open spec fn line_at(s: Seq<char>) -> Seq<char> {
    let k = line_len(s);
    if k < s.len() && k > 0 && s[k - 1] == '\r' {
        s.take(k - 1)
    } else {
        s.take(k as int)
    }
}

/// Whether `pat` occurs in `line`.
pub open spec fn contains_text(line: Seq<char>, pat: Seq<char>) -> bool {
    exists|i: int| 0 <= i && i + pat.len() <= line.len() && #[trigger] line.subrange(i, i + pat.len()) == pat
}

/// The first line of `s` (in the sense of `str::lines`) that contains `pat`.
pub open spec fn find_line(s: Seq<char>, pat: Seq<char>) -> Option<Seq<char>>
    decreases s.len(),
{
    if s.len() == 0 {
        None
    } else {
        let k = line_len(s);
        if contains_text(line_at(s), pat) {
            Some(line_at(s))
        } else if k < s.len() {
            find_line(s.skip(k + 1 as int), pat)
        } else {
            None
        }
    }
}

/// Field `n` (from 0) of `s` split at `"` characters, as
/// `s.split('"').nth(n)` gives it.
pub open spec fn quote_field(s: Seq<char>, n: nat) -> Option<Seq<char>>
    decreases n,
{
    let k = len_before(s, '"');
    if n == 0 {
        Some(s.take(k as int))
    } else if k < s.len() {
        quote_field(s.skip(k + 1 as int), (n - 1) as nat)
    } else {
        None
    }
}

/// The platform UUID in `ioreg -d2 -c IOPlatformExpertDevice` output: in the
/// first line that mentions `IOPlatformUUID`, the fourth `"`-separated field
/// (the quoted value after the quoted key).
pub open spec fn platform_uuid_spec(output: Seq<char>) -> Option<Seq<char>> {
    match find_line(output, "IOPlatformUUID"@) {
        None => None,
        Some(line) => quote_field(line, 3),
    }
}

/// `v[a..b]` as a vector.
fn copy_range(v: &Vec<char>, a: usize, b: usize) -> (r: Vec<char>)
    requires
        a <= b <= v@.len(),
    ensures
        r@ == v@.subrange(a as int, b as int),
{
    let mut out: Vec<char> = Vec::new();
    let mut i: usize = a;
    while i < b
        invariant
            a <= i <= b,
            b <= v@.len(),
            out@ == v@.subrange(a as int, i as int),
        decreases b - i,
    {
        out.push(v[i]);
        i = i + 1;
        assert(out@ =~= v@.subrange(a as int, i as int));
    }
    out
}

/// Whether `pat` occurs in `line` at position `i`.
fn occurs_at(line: &Vec<char>, pat: &Vec<char>, i: usize) -> (r: bool)
    requires
        i + pat@.len() <= line@.len(),
    ensures
        r == (line@.subrange(i as int, i + pat@.len()) == pat@),
{
    let m = pat.len();
    let n = line.len();
    let mut j: usize = 0;
    while j < m
        invariant
            j <= m,
            m == pat@.len(),
            n == line@.len(),
            i + m <= n,
            forall|t: int| 0 <= t < j ==> line@[i + t] == pat@[t],
        decreases m - j,
    {
        if line[i + j] != pat[j] {
            assert(line@.subrange(i as int, i + m)[j as int] != pat@[j as int]);
            return false;
        }
        j = j + 1;
    }
    assert(line@.subrange(i as int, i + m) =~= pat@);
    true
}

/// Whether `pat` occurs in `line`.
fn contains(line: &Vec<char>, pat: &Vec<char>) -> (r: bool)
    ensures
        r == contains_text(line@, pat@),
{
    let n = line.len();
    let m = pat.len();
    if m > n {
        return false;
    }
    if m == 0 {
        assert(line@.subrange(0int, 0int + pat@.len()) =~= pat@);
        return true;
    }
    let mut i: usize = 0;
    while i <= n - m
        invariant
            1 <= m <= n,
            n == line@.len(),
            m == pat@.len(),
            forall|j: int| 0 <= j < i ==> #[trigger] line@.subrange(j, j + m) != pat@,
        decreases n - m + 1 - i,
    {
        if occurs_at(line, pat, i) {
            return true;
        }
        i = i + 1;
    }
    false
}

/// Field `k` of `line` split at `"` characters.
fn quote_field_exec(line: &Vec<char>, k: usize) -> (r: Option<String>)
    ensures
        opt_text(r) == quote_field(line@, k as nat),
{
    let n = line.len();
    let mut pos: usize = 0;
    let mut left: usize = k;
    assert(line@.skip(0) =~= line@);
    loop
        invariant
            pos <= n,
            n == line@.len(),
            quote_field(line@, k as nat) == quote_field(line@.skip(pos as int), left as nat),
        decreases n - pos,
    {
        let ghost rest = line@.skip(pos as int);
        let mut e: usize = pos;
        assert(line@.skip(e as int) == rest);
        while e < n && line[e] != '"'
            invariant
                pos <= e <= n,
                n == line@.len(),
                rest == line@.skip(pos as int),
                len_before(rest, '"') == (e - pos) + len_before(line@.skip(e as int), '"'),
            decreases n - e,
        {
            assert(line@.skip(e as int).drop_first() =~= line@.skip(e + 1));
            e = e + 1;
        }
        assert(len_before(rest, '"') == e - pos);
        if left == 0 {
            assert(rest.take(e - pos) =~= line@.subrange(pos as int, e as int));
            return Some(string_from_chars(line, pos, e));
        }
        if e >= n {
            return None;
        }
        assert(rest.skip(e - pos + 1) =~= line@.skip(e + 1));
        pos = e + 1;
        left = left - 1;
    }
}

/// The platform UUID in the output of `ioreg -d2 -c IOPlatformExpertDevice`.
pub fn platform_uuid(output: &str) -> (r: Option<String>)
    ensures
        opt_text(r) == platform_uuid_spec(output@),
{
    let chars = collect_chars(output);
    let pat = collect_chars("IOPlatformUUID");
    let n = chars.len();
    let mut start: usize = 0;
    assert(chars@.skip(0) =~= chars@);
    while start < n
        invariant
            start <= n,
            n == chars@.len(),
            pat@ == "IOPlatformUUID"@,
            chars@ == output@,
            find_line(chars@, pat@) == find_line(chars@.skip(start as int), pat@),
        decreases n - start,
    {
        let ghost rest = chars@.skip(start as int);
        let mut k: usize = start;
        assert(chars@.skip(k as int) == rest);
        while k < n && chars[k] != '\n'
            invariant
                start <= k <= n,
                n == chars@.len(),
                rest == chars@.skip(start as int),
                line_len(rest) == (k - start) + line_len(chars@.skip(k as int)),
            decreases n - k,
        {
            assert(chars@.skip(k as int).drop_first() =~= chars@.skip(k + 1));
            k = k + 1;
        }
        assert(line_len(rest) == k - start);
        let lend = if k < n && k > start && chars[k - 1] == '\r' {
            k - 1
        } else {
            k
        };
        let line = copy_range(&chars, start, lend);
        assert(line@ =~= line_at(rest));
        if contains(&line, &pat) {
            assert(find_line(rest, pat@) == Some(line@));
            return quote_field_exec(&line, 3);
        }
        if k >= n {
            assert(find_line(rest, pat@) is None);
            return None;
        }
        assert(rest.skip(k - start + 1) =~= chars@.skip(k + 1));
        start = k + 1;
    }
    None
}

} // verus!
