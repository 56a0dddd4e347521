//! Character-level helpers shared by the other modules: conversion between
//! strings and character vectors, decimal rendering, prefix tests, trimming,
//! and splitting into lines or fields.

use vstd::prelude::*;
use vstd::string::StringExecFns;

verus! {

/// `String::push` appends one character at the end of the string.
pub assume_specification[ String::push ](s: &mut String, c: char)
    ensures
        final(s)@ == old(s)@.push(c),
;

/// The characters of `s`, in order.
pub fn chars_of(s: &str) -> (v: Vec<char>)
    ensures
        v@ == s@,
{
    let mut v: Vec<char> = Vec::new();
    for c in it: s.chars()
        invariant
            it.seq() == s@,
            v@ == it.history(),
    {
        v.push(c);
    }
    assert(v@ =~= s@);
    v
}

/// The string made of the characters of `v`, in order.
pub fn string_of(v: &Vec<char>) -> (s: String)
    ensures
        s@ == v@,
{
    let mut s = String::new();
    let mut i: usize = 0;
    while i < v.len()
        invariant
            i <= v.len(),
            s@ == v@.take(i as int),
        decreases v.len() - i,
    {
        s.push(v[i]);
        i += 1;
        assert(v@.take(i as int) =~= v@.take(i - 1).push(v@[i - 1]));
    }
    assert(v@.take(v.len() as int) =~= v@);
    s
}

/// The character that writes the decimal digit `d`.
pub open spec fn digit_char(d: nat) -> char {
    if d == 0 {
        '0'
    } else if d == 1 {
        '1'
    } else if d == 2 {
        '2'
    } else if d == 3 {
        '3'
    } else if d == 4 {
        '4'
    } else if d == 5 {
        '5'
    } else if d == 6 {
        '6'
    } else if d == 7 {
        '7'
    } else if d == 8 {
        '8'
    } else {
        '9'
    }
}

/// The decimal numeral of `n`, without sign or leading zeros.
pub open spec fn decimal(n: nat) -> Seq<char>
    decreases n,
{
    if n < 10 {
        seq![digit_char(n)]
    } else {
        decimal(n / 10).push(digit_char(n % 10))
    }
}

/// The character of a decimal digit.
fn digit_of(d: u64) -> (c: char)
    requires
        d < 10,
    ensures
        c == digit_char(d as nat),
{
    if d == 0 {
        '0'
    } else if d == 1 {
        '1'
    } else if d == 2 {
        '2'
    } else if d == 3 {
        '3'
    } else if d == 4 {
        '4'
    } else if d == 5 {
        '5'
    } else if d == 6 {
        '6'
    } else if d == 7 {
        '7'
    } else if d == 8 {
        '8'
    } else {
        '9'
    }
}

/// Appends the decimal numeral of `n` to `out`.
fn push_decimal(n: u64, out: &mut String)
    ensures
        final(out)@ == old(out)@ + decimal(n as nat),
    decreases n,
{
    if n < 10 {
        out.push(digit_of(n));
        assert(final(out)@ =~= old(out)@ + decimal(n as nat));
    } else {
        push_decimal(n / 10, out);
        out.push(digit_of(n % 10));
        assert(final(out)@ =~= old(out)@ + decimal(n as nat));
    }
}

/// Writes `n` in decimal.
pub fn render_number(n: u64) -> (s: String)
    ensures
        s@ == decimal(n as nat),
{
    let mut s = String::new();
    push_decimal(n, &mut s);
    assert(s@ =~= decimal(n as nat));
    s
}

/// Whether `c` is white space in the sense of Unicode's `White_Space`
/// property.
pub open spec fn is_space(c: char) -> bool {
    ||| ('\u{9}' <= c && c <= '\u{D}')
    ||| c == ' '
    ||| c == '\u{85}'
    ||| c == '\u{A0}'
    ||| c == '\u{1680}'
    ||| ('\u{2000}' <= c && c <= '\u{200A}')
    ||| c == '\u{2028}'
    ||| c == '\u{2029}'
    ||| c == '\u{202F}'
    ||| c == '\u{205F}'
    ||| c == '\u{3000}'
}

/// The characters that `strip` removes: double quotes when `quotes` is set,
/// white space otherwise.
pub open spec fn strippable(quotes: bool, c: char) -> bool {
    if quotes {
        c == '"'
    } else {
        is_space(c)
    }
}

/// Whether `strip` removes `c`.
fn is_strippable(quotes: bool, c: char) -> (b: bool)
    ensures
        b == strippable(quotes, c),
{
    if quotes {
        c == '"'
    } else {
        ('\u{9}' <= c && c <= '\u{D}') || c == ' ' || c == '\u{85}' || c == '\u{A0}' || c
            == '\u{1680}' || ('\u{2000}' <= c && c <= '\u{200A}') || c == '\u{2028}' || c
            == '\u{2029}' || c == '\u{202F}' || c == '\u{205F}' || c == '\u{3000}'
    }
}

/// The number of strippable characters at the start of `s[from..]`.
pub open spec fn leading(quotes: bool, s: Seq<char>, from: int) -> nat
    decreases s.len() - from,
{
    if 0 <= from < s.len() && strippable(quotes, s[from]) {
        1 + leading(quotes, s, from + 1)
    } else {
        0
    }
}

/// The number of strippable characters at the end of `s[lo..to]`.
pub open spec fn trailing(quotes: bool, s: Seq<char>, lo: int, to: int) -> nat
    decreases to,
{
    if lo < to <= s.len() && 0 <= lo && strippable(quotes, s[to - 1]) {
        1 + trailing(quotes, s, lo, to - 1)
    } else {
        0
    }
}

/// `s` without the strippable characters at its two ends.
pub open spec fn stripped(quotes: bool, s: Seq<char>) -> Seq<char> {
    let a = leading(quotes, s, 0) as int;
    let b = s.len() - trailing(quotes, s, a, s.len() as int);
    s.subrange(a, b)
}

/// `s` without the white space at its two ends.
pub open spec fn trimmed(s: Seq<char>) -> Seq<char> {
    stripped(false, s)
}

/// `s` without the double quotes at its two ends.
pub open spec fn unquoted(s: Seq<char>) -> Seq<char> {
    stripped(true, s)
}

/// Removes the strippable characters from the two ends of `v`.
pub fn strip(quotes: bool, v: &Vec<char>) -> (r: Vec<char>)
    ensures
        r@ == stripped(quotes, v@),
{
    let n = v.len();
    let mut a: usize = 0;
    while a < n && is_strippable(quotes, v[a])
        invariant
            a <= n,
            n == v.len(),
            leading(quotes, v@, 0) == a + leading(quotes, v@, a as int),
        decreases n - a,
    {
        a += 1;
    }
    let mut b: usize = n;
    while a < b && is_strippable(quotes, v[b - 1])
        invariant
            a <= b <= n,
            n == v.len(),
            trailing(quotes, v@, a as int, n as int) == (n - b) + trailing(
                quotes,
                v@,
                a as int,
                b as int,
            ),
        decreases b,
    {
        b -= 1;
    }
    let mut r: Vec<char> = Vec::new();
    let mut i: usize = a;
    while i < b
        invariant
            a <= i <= b <= n,
            n == v.len(),
            r@ == v@.subrange(a as int, i as int),
        decreases b - i,
    {
        r.push(v[i]);
        i += 1;
        assert(v@.subrange(a as int, i as int) =~= v@.subrange(a as int, i - 1).push(v@[i - 1]));
    }
    r
}

/// Removes the white space from the two ends of `v`.
pub fn trim(v: &Vec<char>) -> (r: Vec<char>)
    ensures
        r@ == trimmed(v@),
{
    strip(false, v)
}

/// Whether `p` is a prefix of `v`.
pub fn has_prefix(v: &Vec<char>, p: &str) -> (b: bool)
    ensures
        b == p@.is_prefix_of(v@),
{
    let pc = chars_of(p);
    if pc.len() > v.len() {
        return false;
    }
    let mut i: usize = 0;
    while i < pc.len()
        invariant
            i <= pc.len() <= v.len(),
            pc@ == p@,
            forall|k: int| 0 <= k < i ==> pc@[k] == v@[k],
        decreases pc.len() - i,
    {
        if pc[i] != v[i] {
            return false;
        }
        i += 1;
    }
    assert(p@ =~= v@.subrange(0, p@.len() as int));
    true
}

/// Whether `v` and `p` hold the same characters.
pub fn same_text(v: &Vec<char>, p: &str) -> (b: bool)
    ensures
        b == (v@ == p@),
{
    let pc = chars_of(p);
    if pc.len() != v.len() {
        return false;
    }
    let mut i: usize = 0;
    while i < pc.len()
        invariant
            i <= pc.len() == v.len(),
            pc@ == p@,
            forall|k: int| 0 <= k < i ==> pc@[k] == v@[k],
        decreases pc.len() - i,
    {
        if pc[i] != v[i] {
            return false;
        }
        i += 1;
    }
    assert(p@ =~= v@);
    true
}

/// The texts of the rows of `v`.
pub open spec fn rows(v: Seq<Vec<char>>) -> Seq<Seq<char>> {
    v.map_values(|r: Vec<char>| r@)
}

/// The number of characters of `s[from..]` before the first `sep`.
pub open spec fn run_len(s: Seq<char>, sep: char, from: int) -> nat
    decreases s.len() - from,
{
    if 0 <= from < s.len() && s[from] != sep {
        1 + run_len(s, sep, from + 1)
    } else {
        0
    }
}

/// The pieces of `s[from..]` between occurrences of `sep`; a separator at
/// the very end is followed by an empty piece.
pub open spec fn fields_from(s: Seq<char>, sep: char, from: int) -> Seq<Seq<char>>
    decreases s.len() - from,
{
    if 0 <= from <= s.len() {
        let e = from + run_len(s, sep, from);
        if e < s.len() {
            seq![s.subrange(from, e)] + fields_from(s, sep, e + 1)
        } else {
            seq![s.subrange(from, e)]
        }
    } else {
        Seq::empty()
    }
}

/// The pieces of `s` between occurrences of `sep`.
pub open spec fn fields(s: Seq<char>, sep: char) -> Seq<Seq<char>> {
    fields_from(s, sep, 0)
}

/// `l` without a carriage return at its end.
pub open spec fn without_cr(l: Seq<char>) -> Seq<char> {
    if l.len() > 0 && l.last() == '\r' {
        l.drop_last()
    } else {
        l
    }
}

/// The lines of `s[from..]`: each ends at a line feed or at the end of the
/// text and loses one closing carriage return; a line feed at the very end
/// opens no further line.
pub open spec fn lines_from(s: Seq<char>, from: int) -> Seq<Seq<char>>
    decreases s.len() - from,
{
    if 0 <= from < s.len() {
        let e = from + run_len(s, '\n', from);
        if e < s.len() {
            seq![without_cr(s.subrange(from, e))] + lines_from(s, e + 1)
        } else {
            seq![without_cr(s.subrange(from, e))]
        }
    } else {
        Seq::empty()
    }
}

/// The lines of `s`.
pub open spec fn lines(s: Seq<char>) -> Seq<Seq<char>> {
    lines_from(s, 0)
}

/// The place of the first `sep` at or behind `from`, or the end of `v`.
fn run_end(v: &Vec<char>, sep: char, from: usize) -> (e: usize)
    requires
        from <= v.len(),
    ensures
        e == from + run_len(v@, sep, from as int),
        from <= e <= v.len(),
        e < v.len() ==> v@[e as int] == sep,
{
    let mut e: usize = from;
    while e < v.len() && v[e] != sep
        invariant
            from <= e <= v.len(),
            run_len(v@, sep, from as int) == (e - from) + run_len(v@, sep, e as int),
        decreases v.len() - e,
    {
        e += 1;
    }
    e
}

/// The characters of `v` from `from` up to `to`.
fn copy_range(v: &Vec<char>, from: usize, to: usize) -> (r: Vec<char>)
    requires
        from <= to <= v.len(),
    ensures
        r@ == v@.subrange(from as int, to as int),
{
    let mut r: Vec<char> = Vec::new();
    let mut i: usize = from;
    while i < to
        invariant
            from <= i <= to <= v.len(),
            r@ == v@.subrange(from as int, i as int),
        decreases to - i,
    {
        r.push(v[i]);
        i += 1;
        assert(v@.subrange(from as int, i as int) =~= v@.subrange(from as int, i - 1).push(
            v@[i - 1],
        ));
    }
    r
}

/// Splits `v` at every `sep`.
pub fn split_fields(v: &Vec<char>, sep: char) -> (out: Vec<Vec<char>>)
    ensures
        rows(out@) == fields(v@, sep),
        out.len() >= 1,
{
    let mut out: Vec<Vec<char>> = Vec::new();
    let mut i: usize = 0;
    loop
        invariant
            i <= v.len(),
            fields(v@, sep) == rows(out@) + fields_from(v@, sep, i as int),
        decreases v.len() - i,
    {
        let e = run_end(v, sep, i);
        let piece = copy_range(v, i, e);
        let ghost before = rows(out@);
        out.push(piece);
        assert(rows(out@) =~= before.push(v@.subrange(i as int, e as int)));
        if e < v.len() {
            assert(fields(v@, sep) =~= rows(out@) + fields_from(v@, sep, e + 1));
            i = e + 1;
        } else {
            assert(fields(v@, sep) =~= rows(out@));
            return out;
        }
    }
}

/// Splits `v` into its lines.
pub fn split_lines(v: &Vec<char>) -> (out: Vec<Vec<char>>)
    ensures
        rows(out@) == lines(v@),
{
    let mut out: Vec<Vec<char>> = Vec::new();
    let mut i: usize = 0;
    while i < v.len()
        invariant
            lines(v@) == rows(out@) + lines_from(v@, i as int),
        decreases v.len() - i,
    {
        let e = run_end(v, '\n', i);
        let keep = if e > i && v[e - 1] == '\r' {
            e - 1
        } else {
            e
        };
        let piece = copy_range(v, i, keep);
        assert(piece@ =~= without_cr(v@.subrange(i as int, e as int)));
        let ghost before = rows(out@);
        out.push(piece);
        assert(rows(out@) =~= before.push(without_cr(v@.subrange(i as int, e as int))));
        if e < v.len() {
            assert(lines(v@) =~= rows(out@) + lines_from(v@, e + 1));
            i = e + 1;
        } else {
            assert(lines(v@) =~= rows(out@));
            return out;
        }
    }
    assert(lines(v@) =~= rows(out@));
    out
}

/// The first `n` of `parts`, one after the other.
pub open spec fn concat_upto(parts: Seq<Seq<char>>, n: int) -> Seq<char>
    decreases n,
{
    if n <= 0 || n > parts.len() {
        Seq::empty()
    } else {
        concat_upto(parts, n - 1) + parts[n - 1]
    }
}

/// All of `parts`, one after the other.
pub open spec fn concat(parts: Seq<Seq<char>>) -> Seq<char> {
    concat_upto(parts, parts.len() as int)
}

/// The texts of a list of strings.
pub open spec fn texts(v: Seq<String>) -> Seq<Seq<char>> {
    v.map_values(|s: String| s@)
}

/// The first `n` of `parts` with `sep` between neighbours.
pub open spec fn joined_upto(parts: Seq<Seq<char>>, sep: Seq<char>, n: int) -> Seq<char>
    decreases n,
{
    if n <= 0 || n > parts.len() {
        Seq::empty()
    } else if n == 1 {
        parts[0]
    } else {
        joined_upto(parts, sep, n - 1) + sep + parts[n - 1]
    }
}

/// `parts` with `sep` between neighbours.
pub open spec fn joined(parts: Seq<Seq<char>>, sep: Seq<char>) -> Seq<char> {
    joined_upto(parts, sep, parts.len() as int)
}

/// Joins `parts` with `sep` between neighbours.
pub fn join(parts: &Vec<String>, sep: &str) -> (out: String)
    ensures
        out@ == joined(texts(parts@), sep@),
{
    let mut out = String::new();
    let mut i: usize = 0;
    while i < parts.len()
        invariant
            i <= parts.len(),
            out@ == joined_upto(texts(parts@), sep@, i as int),
        decreases parts.len() - i,
    {
        let ghost before = out@;
        if i > 0 {
            out.append(sep);
        }
        out.append(parts[i].as_str());
        i += 1;
        assert(out@ =~= joined_upto(texts(parts@), sep@, i as int));
    }
    out
}

} // verus!
