//! Lines of a text, and padded and repeated text.

use crate::source::{scan, scan_is_first};
use crate::text::{chars_of, decimal, decimal_string, is_blank, string_of};
use vstd::prelude::*;

verus! {

/// A line without its newline, and whether it has one.
pub type Line = (Seq<char>, bool);

/// Where the line at offset `p` ends.
pub open spec fn line_end(s: Seq<char>, p: int) -> int {
    scan(s, p, |c: char| c != '\n')
}

/// The lines of a text from offset `p` on.
pub open spec fn lines_from(s: Seq<char>, p: int) -> Seq<Line>
    decreases s.len() - p,
    when 0 <= p
    via lines_from_terminates
{
    if p >= s.len() {
        seq![]
    } else {
        let e = line_end(s, p);
        if e < s.len() {
            seq![(s.subrange(p, e), true)] + lines_from(s, e + 1)
        } else {
            seq![(s.subrange(p, e), false)]
        }
    }
}

#[via_fn]
proof fn lines_from_terminates(s: Seq<char>, p: int) {
    if p < s.len() {
        scan_is_first(s, p, |c: char| c != '\n');
    }
}

/// The lines of a text.
pub open spec fn lines(s: Seq<char>) -> Seq<Line> {
    lines_from(s, 0)
}

/// A line as it is shown: a carriage return in front of the newline belongs
/// to the line ending.
pub open spec fn shown(line: Line) -> Seq<char> {
    if line.1 && line.0.len() > 0 && line.0.last() == '\r' {
        line.0.drop_last()
    } else {
        line.0
    }
}

/// Lines with owned text, as mathematical values.
pub open spec fn lines_of(v: Seq<(String, bool)>) -> Seq<Line> {
    Seq::new(v.len(), |i: int| (v[i].0@, v[i].1))
}

/// The lines of a text, each without its newline and with whether it has one.
pub fn split_lines(text: &str) -> (r: Vec<(String, bool)>)
    ensures
        lines_of(r@) == lines(text@),
{
    let chars = chars_of(text);
    let ghost s = text@;
    let mut out: Vec<(String, bool)> = Vec::new();
    let mut p: usize = 0;
    assert(lines_of(out@) =~= seq![]);
    assert(seq![] + lines_from(s, 0) =~= lines(s));
    while p < chars.len()
        invariant
            p <= chars@.len(),
            chars@ == s,
            lines(s) == lines_of(out@) + lines_from(s, p as int),
        decreases chars@.len() - p,
    {
        let mut e: usize = p;
        let ghost skip = |c: char| c != '\n';
        while e < chars.len() && chars[e] != '\n'
            invariant
                p <= e <= chars@.len(),
                chars@ == s,
                skip == (|c: char| c != '\n'),
                scan(s, p as int, skip) == scan(s, e as int, skip),
            decreases chars@.len() - e,
        {
            e += 1;
        }
        assert(e == line_end(s, p as int));
        let ghost before = lines_of(out@);
        let line = string_of(&chars, p, e);
        let ended = e < chars.len();
        let ghost entry = (line@, ended);
        out.push((line, ended));
        assert(lines_of(out@) =~= before.push(entry));
        if ended {
            assert(before + (seq![entry] + lines_from(s, e + 1)) =~= before.push(entry)
                + lines_from(s, e + 1));
            p = e + 1;
        } else {
            assert(before + seq![entry] =~= before.push(entry) + lines_from(s, e as int));
            p = e;
        }
    }
    assert(lines_of(out@) + seq![] =~= lines_of(out@));
    out
}

/// The lines of a text as they are shown.
pub open spec fn shown_lines(s: Seq<char>) -> Seq<Seq<char>> {
    Seq::new(lines(s).len(), |i: int| shown(lines(s)[i]))
}

/// Texts as mathematical values.
pub open spec fn texts(v: Seq<String>) -> Seq<Seq<char>> {
    Seq::new(v.len(), |i: int| v[i]@)
}

/// The lines of a text as they are shown.
pub fn display_lines(text: &str) -> (r: Vec<String>)
    ensures
        texts(r@) == shown_lines(text@),
{
    let all = split_lines(text);
    let mut out: Vec<String> = Vec::new();
    let mut i: usize = 0;
    while i < all.len()
        invariant
            i == out@.len() <= all@.len(),
            lines_of(all@) == lines(text@),
            forall|j: int| 0 <= j < i ==> (#[trigger] out@[j])@ == shown(lines(text@)[j]),
        decreases all@.len() - i,
    {
        let chars = chars_of(all[i].0.as_str());
        let n: usize = chars.len();
        assert(lines(text@)[i as int] == lines_of(all@)[i as int]);
        if all[i].1 && n > 0 && chars[n - 1] == '\r' {
            let line = string_of(&chars, 0, n - 1);
            assert(line@ =~= chars@.drop_last());
            out.push(line);
        } else {
            out.push(all[i].0.clone());
        }
        i += 1;
    }
    assert(lines(text@).len() == lines_of(all@).len());
    assert(texts(out@) =~= shown_lines(text@));
    out
}

/// A text without the blanks at its end.
pub open spec fn trimmed_end(s: Seq<char>) -> Seq<char>
    decreases s.len(),
{
    if s.len() > 0 && is_blank(s.last()) {
        trimmed_end(s.drop_last())
    } else {
        s
    }
}

pub fn trim_end(text: &str) -> (r: String)
    ensures
        r@ == trimmed_end(text@),
{
    let chars = chars_of(text);
    let mut n: usize = chars.len();
    assert(chars@.take(n as int) =~= chars@);
    while n > 0 && is_blank(chars[n - 1])
        invariant
            n <= chars@.len(),
            trimmed_end(text@) == trimmed_end(chars@.take(n as int)),
        decreases n,
    {
        assert(chars@.take(n as int).drop_last() =~= chars@.take(n - 1));
        n -= 1;
    }
    let r = string_of(&chars, 0, n);
    assert(r@ =~= chars@.take(n as int));
    r
}

/// A character `n` times.
pub open spec fn repeated(c: char, n: nat) -> Seq<char> {
    Seq::new(n, |i: int| c)
}

pub fn repeat(c: char, n: usize) -> (r: String)
    ensures
        r@ == repeated(c, n as nat),
{
    let mut out = String::new();
    let mut i: usize = 0;
    while i < n
        invariant
            i <= n,
            out@ == repeated(c, i as nat),
        decreases n - i,
    {
        out.push(c);
        i += 1;
        assert(out@ =~= repeated(c, i as nat));
    }
    assert(out@ =~= repeated(c, n as nat));
    out
}

/// A number in decimal notation, filled up to a width with spaces in front.
pub open spec fn right_aligned(n: nat, width: nat) -> Seq<char> {
    let d = decimal(n);
    if d.len() < width {
        repeated(' ', (width - d.len()) as nat) + d
    } else {
        d
    }
}

pub fn align_right(n: usize, width: usize) -> (r: String)
    ensures
        r@ == right_aligned(n as nat, width as nat),
{
    let digits = decimal_string(n);
    let count: usize = chars_of(digits.as_str()).len();
    if count < width {
        let mut out = repeat(' ', width - count);
        out.append(digits.as_str());
        out
    } else {
        digits
    }
}

/// The text that lines make up.
pub open spec fn rejoined(v: Seq<Line>) -> Seq<char>
    decreases v.len(),
{
    if v.len() == 0 {
        seq![]
    } else {
        v[0].0 + (if v[0].1 {
            "\n"@
        } else {
            seq![]
        }) + rejoined(v.drop_first())
    }
}

proof fn rejoined_from(s: Seq<char>, p: int)
    requires
        0 <= p <= s.len(),
    ensures
        rejoined(lines_from(s, p)) == s.skip(p),
    decreases s.len() - p,
{
    reveal_strlit("\n");
    if p < s.len() {
        scan_is_first(s, p, |c: char| c != '\n');
        let e = line_end(s, p);
        let all = lines_from(s, p);
        if e < s.len() {
            rejoined_from(s, e + 1);
            assert(all.drop_first() =~= lines_from(s, e + 1));
            assert(rejoined(all) =~= s.skip(p));
        } else {
            assert(all.drop_first() =~= Seq::<Line>::empty());
            assert(rejoined(all.drop_first()) =~= Seq::<char>::empty());
            assert(rejoined(all) =~= s.skip(p));
        }
    } else {
        assert(lines_from(s, p) =~= Seq::<Line>::empty());
        assert(rejoined(lines_from(s, p)) =~= s.skip(p));
    }
}

/// The lines of a text make up the text: nothing is lost between them.
pub proof fn lines_make_up_the_text(s: Seq<char>)
    ensures
        rejoined(lines(s)) == s,
{
    rejoined_from(s, 0);
    assert(s.skip(0) =~= s);
}

} // verus!
