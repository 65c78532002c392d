//! A source text that is read character by character, with its position.

use crate::text::{chars_of, string_of};
use unicode_width::UnicodeWidthChar;
use vstd::prelude::*;

verus! {

/// What `unicode_width` gives as the display width of a character.
pub uninterp spec fn char_width(c: char) -> Option<usize>;

/// `UnicodeWidthChar::width`: the number of terminal columns that a character
/// takes, and nothing for a control character. Printable ASCII takes one
/// column, ASCII controls have no width, and no character takes more than
/// three columns.
#[verifier::external_body]
pub(crate) fn display_width(c: char) -> (r: Option<usize>)
    ensures
        r == char_width(c),
        ' ' <= c <= '~' ==> r == Some(1usize),
        c < ' ' ==> r == None::<usize>,
        r matches Some(w) ==> w <= 3,
{
    UnicodeWidthChar::width(c)
}

/// The columns by which a character moves the position on: its display
/// width, and one for a character without a width.
pub open spec fn columns(c: char) -> nat {
    match char_width(c) {
        Some(w) => w as nat,
        None => 1,
    }
}

/// The columns by which a character moves the position on.
pub fn columns_of(c: char) -> (r: usize)
    ensures
        r == columns(c),
        r <= 3,
        ' ' <= c <= '~' ==> r == 1,
{
    match display_width(c) {
        Some(w) => w,
        None => 1,
    }
}

/// The row, counted from one, at offset `p` of a text.
pub open spec fn line_at(text: Seq<char>, p: int) -> int
    decreases p,
{
    if p <= 0 {
        1
    } else if text[p - 1] == '\n' {
        line_at(text, p - 1) + 1
    } else {
        line_at(text, p - 1)
    }
}

/// The column, counted from one, at offset `p` of a text.
pub open spec fn col_at(text: Seq<char>, p: int) -> int
    decreases p,
{
    if p <= 0 {
        1
    } else if text[p - 1] == '\n' {
        1
    } else {
        col_at(text, p - 1) + columns(text[p - 1])
    }
}

/// The character at offset `p`, where there is one.
pub open spec fn at(text: Seq<char>, p: int) -> Option<char> {
    if 0 <= p < text.len() {
        Some(text[p])
    } else {
        None
    }
}

/// The first offset from `p` on at which `skip` does not hold.
pub open spec fn scan(text: Seq<char>, p: int, skip: spec_fn(char) -> bool) -> int
    decreases text.len() - p,
{
    if 0 <= p < text.len() && skip(text[p]) {
        scan(text, p + 1, skip)
    } else {
        p
    }
}

/// What `scan` returns: everything up to it is skipped, and it is not.
pub proof fn scan_is_first(text: Seq<char>, p: int, skip: spec_fn(char) -> bool)
    requires
        0 <= p <= text.len(),
    ensures
        p <= scan(text, p, skip) <= text.len(),
        forall|i: int| p <= i < scan(text, p, skip) ==> skip(#[trigger] text[i]),
        scan(text, p, skip) < text.len() ==> !skip(text[scan(text, p, skip)]),
    decreases text.len() - p,
{
    if p < text.len() && skip(text[p]) {
        scan_is_first(text, p + 1, skip);
    }
}

/// The offset of the first `*/` from `p` on, where there is one.
pub open spec fn comment_end(text: Seq<char>, p: int) -> Option<int>
    decreases text.len() - p,
{
    if p < 0 || p + 1 >= text.len() {
        None
    } else if text[p] == '*' && text[p + 1] == '/' {
        Some(p)
    } else {
        comment_end(text, p + 1)
    }
}

/// Texts whose rows, columns and byte offsets all fit a machine word.
pub open spec fn fits(text: Seq<char>) -> bool {
    8 * text.len() + 8 <= usize::MAX
}

/// A text being read: its characters, the offset reached, and the row and
/// column there.
pub struct Source {
    pub input: String,
    pub chars: Vec<char>,
    pub pos: usize,
    pub line: usize,
    pub col: usize,
}

impl Source {
    /// The whole text.
    pub open spec fn text(self) -> Seq<char> {
        self.chars@
    }

    pub open spec fn wf(self) -> bool {
        &&& self.input@ == self.chars@
        &&& fits(self.chars@)
        &&& self.pos <= self.chars@.len()
        &&& self.line == line_at(self.chars@, self.pos as int)
        &&& self.col == col_at(self.chars@, self.pos as int)
        &&& 1 <= self.line <= 1 + self.pos
        &&& 1 <= self.col <= 1 + 3 * self.pos
    }

    /// `self` is `before` read on to offset `p`.
    pub open spec fn moved(self, before: Source, p: int) -> bool {
        &&& self.wf()
        &&& self.input == before.input
        &&& self.chars@ == before.chars@
        &&& self.pos == p
    }

    /// A source positioned at the start of `input`.
    pub fn from_string(input: String) -> (r: Self)
        requires
            fits(input@),
        ensures
            r.wf(),
            r.input == input,
            r.pos == 0,
    {
        let chars = chars_of(input.as_str());
        Source { input, chars, pos: 0, line: 1, col: 1 }
    }

    /// A source positioned at the start of a text.
    pub fn from_test_str(input: &str) -> (r: Self)
        requires
            fits(input@),
        ensures
            r.wf(),
            r.input@ == input@,
            r.pos == 0,
    {
        Self::from_string(input.to_owned())
    }

    /// The next character, which stays unread.
    pub fn peek(&self) -> (r: Option<char>)
        requires
            self.wf(),
        ensures
            r == at(self.text(), self.pos as int),
    {
        if self.pos < self.chars.len() {
            Some(self.chars[self.pos])
        } else {
            None
        }
    }

    /// The character `n` places behind the next one.
    pub fn peek_nth(&self, n: usize) -> (r: Option<char>)
        requires
            self.wf(),
        ensures
            r == at(self.text(), self.pos + n),
    {
        if n < self.chars.len() - self.pos {
            Some(self.chars[self.pos + n])
        } else {
            None
        }
    }

    /// Reads the next character.
    pub fn next_char(&mut self) -> (r: Option<char>)
        requires
            old(self).wf(),
        ensures
            r == at(old(self).text(), old(self).pos as int),
            final(self).moved(*old(self), old(self).pos + (if r is Some { 1int } else { 0int })),
    {
        if self.pos < self.chars.len() {
            let c = self.chars[self.pos];
            self.pos += 1;
            if c == '\n' {
                self.line += 1;
                self.col = 1;
            } else {
                self.col += columns_of(c);
            }
            Some(c)
        } else {
            None
        }
    }

    /// Reads up to the next `ch`, which stays unread, or to the end.
    pub fn consume_until(&mut self, ch: char) -> (r: String)
        requires
            old(self).wf(),
        ensures
            final(self).moved(*old(self), scan(old(self).text(), old(self).pos as int, |c: char| c != ch)),
            r@ == old(self).text().subrange(old(self).pos as int, final(self).pos as int),
    {
        let start: usize = self.pos;
        let ghost skip = |c: char| c != ch;
        while self.pos < self.chars.len() && self.chars[self.pos] != ch
            invariant
                self.moved(*old(self), self.pos as int),
                start <= self.pos,
                start == old(self).pos,
                skip == (|c: char| c != ch),
                scan(self.text(), start as int, skip) == scan(self.text(), self.pos as int, skip),
            decreases self.chars@.len() - self.pos,
        {
            self.next_char();
        }
        string_of(&self.chars, start, self.pos)
    }

    /// Reads the rest of a block comment, its `*/` included. The text comes
    /// without the `*/`, and the flag says whether there was one.
    pub fn consume_multiline_comment(&mut self) -> (r: (String, bool))
        requires
            old(self).wf(),
        ensures
            match comment_end(old(self).text(), old(self).pos as int) {
                Some(e) => {
                    &&& r.1
                    &&& r.0@ == old(self).text().subrange(old(self).pos as int, e)
                    &&& final(self).moved(*old(self), e + 2)
                },
                None => {
                    &&& !r.1
                    &&& r.0@ == old(self).text().skip(old(self).pos as int)
                    &&& final(self).moved(*old(self), old(self).text().len() as int)
                },
            },
    {
        let start: usize = self.pos;
        while self.pos < self.chars.len()
            invariant
                self.moved(*old(self), self.pos as int),
                start <= self.pos,
                start == old(self).pos,
                comment_end(self.text(), start as int) == comment_end(
                    self.text(),
                    self.pos as int,
                ),
            decreases self.chars@.len() - self.pos,
        {
            if self.chars[self.pos] == '*' && self.peek_nth(1) == Some('/') {
                let body = string_of(&self.chars, start, self.pos);
                self.next_char();
                self.next_char();
                return (body, true);
            }
            self.next_char();
        }
        let body = string_of(&self.chars, start, self.pos);
        assert(body@ =~= old(self).text().skip(start as int));
        (body, false)
    }
}

} // verus!
