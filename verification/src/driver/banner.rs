//! The animated banner of the version command.

use crate::diagnostic::styles::{paint, painted, Hue, Weight};
use crate::text::{chars_of, decimal, decimal_string, string_of};
use vstd::prelude::*;

verus! {

pub const BANNER_LOGO_ROWS: usize = 6;

pub const BANNER_ANIM_ROWS: usize = 9;

pub const BANNER_TOTAL_COLS: usize = 30;

/// The line below the logo.
pub open spec fn motto() -> Seq<char> {
    "The Programming Language For Everyone"@
}

/// The colours of the sweep, from its head to where it has settled.
pub open spec fn sweep_hue(distance: nat) -> Hue {
    if distance <= 1 {
        Hue::Rgb(0xff, 0xff, 0xff)
    } else if distance <= 4 {
        Hue::Rgb(0x93, 0xc5, 0xfd)
    } else if distance <= 8 {
        Hue::Rgb(0xbf, 0xdb, 0xfe)
    } else {
        Hue::Rgb(0x60, 0xa5, 0xfa)
    }
}

/// The colour of a column that is some columns behind the head of the sweep.
pub fn for_distance(distance: usize) -> (r: Hue)
    ensures
        r == sweep_hue(distance as nat),
{
    if distance <= 1 {
        Hue::Rgb(0xff, 0xff, 0xff)
    } else if distance <= 4 {
        Hue::Rgb(0x93, 0xc5, 0xfd)
    } else if distance <= 8 {
        Hue::Rgb(0xbf, 0xdb, 0xfe)
    } else {
        Hue::Rgb(0x60, 0xa5, 0xfa)
    }
}

/// A text cut or filled up with spaces to a width.
pub open spec fn padded(s: Seq<char>, w: nat) -> Seq<char> {
    Seq::new(
        w,
        |i: int|
            if i < s.len() {
                s[i]
            } else {
                ' '
            },
    )
}

/// A text cut or filled up with spaces to a width.
pub fn banner_pad(content: &str, w: usize) -> (r: String)
    ensures
        r@ == padded(content@, w as nat),
{
    let chars = chars_of(content);
    let mut out = String::new();
    let mut i: usize = 0;
    assert(out@ =~= padded(content@, w as nat).take(0));
    while i < w
        invariant
            i <= w,
            chars@ == content@,
            out@ == padded(content@, w as nat).take(i as int),
        decreases w - i,
    {
        if i < chars.len() {
            out.push(chars[i]);
        } else {
            out.push(' ');
        }
        assert(out@ =~= padded(content@, w as nat).take(i + 1));
        i += 1;
    }
    assert(padded(content@, w as nat).take(w as int) =~= padded(content@, w as nat));
    out
}

/// The rows of the logo's letters.
pub open spec fn letter_rows(row: int) -> (&'static str, &'static str, &'static str) {
    if row == 0 {
        ("███╗   ███╗", "██╗   ██╗", "██╗  ██╗")
    } else if row == 1 {
        ("████╗ ████║", "██║   ██║", "╚██╗██╔╝")
    } else if row == 2 {
        ("██╔████╔██║", "██║   ██║", " ╚███╔╝")
    } else if row == 3 {
        ("██║╚██╔╝██║", "██║   ██║", " ██╔██╗")
    } else if row == 4 {
        ("██║ ╚═╝ ██║", "╚██████╔╝", "██╔╝ ██╗")
    } else {
        ("╚═╝     ╚═╝", " ╚═════╝", "╚═╝  ╚═╝")
    }
}

/// A row of the logo: three letters with a space between them.
pub open spec fn logo_row(row: int) -> Seq<char> {
    let (m, u, x) = letter_rows(row);
    padded(m@, 11).push(' ') + padded(u@, 9).push(' ') + padded(x@, 8)
}

fn letters(row: usize) -> (r: (&'static str, &'static str, &'static str))
    ensures
        r == letter_rows(row as int),
{
    if row == 0 {
        ("███╗   ███╗", "██╗   ██╗", "██╗  ██╗")
    } else if row == 1 {
        ("████╗ ████║", "██║   ██║", "╚██╗██╔╝")
    } else if row == 2 {
        ("██╔████╔██║", "██║   ██║", " ╚███╔╝")
    } else if row == 3 {
        ("██║╚██╔╝██║", "██║   ██║", " ██╔██╗")
    } else if row == 4 {
        ("██║ ╚═╝ ██║", "╚██████╔╝", "██╔╝ ██╗")
    } else {
        ("╚═╝     ╚═╝", " ╚═════╝", "╚═╝  ╚═╝")
    }
}

/// The rows of the logo.
pub fn banner_logo_rows() -> (r: Vec<Vec<char>>)
    ensures
        r@.len() == BANNER_LOGO_ROWS,
        forall|i: int|
            0 <= i < r@.len() ==> (#[trigger] r@[i])@ == logo_row(i) && r@[i]@.len()
                == BANNER_TOTAL_COLS,
{
    let mut out: Vec<Vec<char>> = Vec::new();
    let mut row: usize = 0;
    while row < BANNER_LOGO_ROWS
        invariant
            row == out@.len() <= BANNER_LOGO_ROWS,
            forall|i: int|
                0 <= i < row ==> (#[trigger] out@[i])@ == logo_row(i) && out@[i]@.len()
                    == BANNER_TOTAL_COLS,
        decreases BANNER_LOGO_ROWS - row,
    {
        let (m, u, x) = letters(row);
        let mut s = banner_pad(m, 11);
        s.push(' ');
        s.append(banner_pad(u, 9).as_str());
        s.push(' ');
        s.append(banner_pad(x, 8).as_str());
        assert(s@ =~= logo_row(row as int));
        out.push(chars_of(s.as_str()));
        row += 1;
    }
    out
}

/// The first `n` columns of a row with `cols` columns shown, the head of the
/// sweep at the last of these.
pub open spec fn swept(row: Seq<char>, cols: nat, n: int) -> Seq<char>
    decreases n,
{
    if n <= 0 || n > row.len() || n > cols {
        seq![]
    } else {
        swept(row, cols, n - 1) + painted(
            Weight::Normal,
            Some(sweep_hue((cols - n) as nat)),
            seq![row[n - 1]],
        )
    }
}

pub open spec fn columns_shown(row: Seq<char>, cols: nat) -> int {
    if row.len() < cols {
        row.len() as int
    } else {
        cols as int
    }
}

/// The first `n` rows of a frame of the sweep.
pub open spec fn swept_rows(rows: Seq<Vec<char>>, cols: nat, n: int) -> Seq<char>
    decreases n,
{
    if n <= 0 || n > rows.len() {
        seq![]
    } else {
        swept_rows(rows, cols, n - 1) + swept(
            rows[n - 1]@,
            cols,
            columns_shown(rows[n - 1]@, cols),
        ) + "\n"@
    }
}

/// The settled colour.
pub open spec fn settled_hue() -> Hue {
    Hue::Rgb(0x60, 0xa5, 0xfa)
}

/// The line below the logo, as it is printed.
pub open spec fn motto_line() -> Seq<char> {
    painted(Weight::Normal, Some(settled_hue()), motto()) + "\n"@
}

/// A frame of the sweep. It is drawn over the one before, some rows up.
pub open spec fn sweep_frame(rows: Seq<Vec<char>>, cols: nat, offset: nat) -> Seq<char> {
    "\u{1b}["@ + decimal(offset) + "A\n"@ + swept_rows(rows, cols, rows.len() as int) + "\n"@
        + motto_line()
}

fn one_char(c: char) -> (r: String)
    ensures
        r@ == seq![c],
{
    let mut s = String::new();
    s.push(c);
    proof {
        reveal_strlit("");
        assert(s@ =~= seq![c]);
    }
    s
}

/// A frame of the sweep: the logo up to a column, with a gradient behind the
/// head.
pub fn banner_sweep_frame(combined: &Vec<Vec<char>>, cols: usize, offset: usize) -> (r: String)
    ensures
        r@ == sweep_frame(combined@, cols as nat, offset as nat),
{
    let mut out = "\u{1b}[".to_owned();
    out.append(decimal_string(offset).as_str());
    out.append("A\n");
    let ghost front = out@;
    let mut i: usize = 0;
    assert(out@ =~= front + swept_rows(combined@, cols as nat, 0));
    while i < combined.len()
        invariant
            i <= combined@.len(),
            out@ == front + swept_rows(combined@, cols as nat, i as int),
        decreases combined@.len() - i,
    {
        let row = &combined[i];
        let ghost before = out@;
        let mut col: usize = 0;
        assert(out@ =~= before + swept(row@, cols as nat, 0));
        while col < row.len() && col < cols
            invariant
                col <= row@.len(),
                col <= cols,
                out@ == before + swept(row@, cols as nat, col as int),
            decreases row@.len() - col,
        {
            let hue = for_distance(cols - 1 - col);
            out.append(paint(Weight::Normal, Some(hue), one_char(row[col]).as_str()).as_str());
            assert(out@ =~= before + swept(row@, cols as nat, col + 1));
            col += 1;
        }
        out.append("\n");
        assert(out@ =~= front + swept_rows(combined@, cols as nat, i + 1));
        i += 1;
    }
    out.append("\n");
    out.append(
        paint(
            Weight::Normal,
            Some(Hue::Rgb(0x60, 0xa5, 0xfa)),
            "The Programming Language For Everyone",
        ).as_str(),
    );
    out.append("\n");
    assert(out@ =~= sweep_frame(combined@, cols as nat, offset as nat));
    out
}

/// The first `n` rows of the settled logo.
pub open spec fn settled_rows(rows: Seq<Vec<char>>, n: int) -> Seq<char>
    decreases n,
{
    if n <= 0 || n > rows.len() {
        seq![]
    } else {
        settled_rows(rows, n - 1) + painted(Weight::Normal, Some(settled_hue()), rows[n - 1]@)
            + "\n"@
    }
}

/// The settled logo.
pub open spec fn settled_frame(rows: Seq<Vec<char>>) -> Seq<char> {
    "\u{1b}["@ + decimal(BANNER_ANIM_ROWS as nat) + "A\n"@ + settled_rows(rows, rows.len() as int)
        + "\n"@ + motto_line()
}

/// The last frame: the whole logo in its settled colour.
pub fn banner_settled_frame(combined: &Vec<Vec<char>>) -> (r: String)
    ensures
        r@ == settled_frame(combined@),
{
    let mut out = "\u{1b}[".to_owned();
    out.append(decimal_string(BANNER_ANIM_ROWS).as_str());
    out.append("A\n");
    let ghost front = out@;
    let mut i: usize = 0;
    assert(out@ =~= front + settled_rows(combined@, 0));
    while i < combined.len()
        invariant
            i <= combined@.len(),
            out@ == front + settled_rows(combined@, i as int),
        decreases combined@.len() - i,
    {
        let row = string_of(&combined[i], 0, combined[i].len());
        assert(row@ =~= combined@[i as int]@);
        out.append(
            paint(Weight::Normal, Some(Hue::Rgb(0x60, 0xa5, 0xfa)), row.as_str()).as_str(),
        );
        out.append("\n");
        assert(out@ =~= front + settled_rows(combined@, i + 1));
        i += 1;
    }
    out.append("\n");
    out.append(
        paint(
            Weight::Normal,
            Some(Hue::Rgb(0x60, 0xa5, 0xfa)),
            "The Programming Language For Everyone",
        ).as_str(),
    );
    out.append("\n");
    assert(out@ =~= settled_frame(combined@));
    out
}

/// How far up a frame is drawn: the first one starts below the version lines.
pub fn sweep_offset(cols: usize, version_lines: usize) -> (r: usize)
    requires
        version_lines <= usize::MAX - BANNER_ANIM_ROWS,
    ensures
        r == (if cols == 1 {
            BANNER_ANIM_ROWS + version_lines
        } else {
            BANNER_ANIM_ROWS as int
        }),
{
    if cols == 1 {
        BANNER_ANIM_ROWS + version_lines
    } else {
        BANNER_ANIM_ROWS
    }
}

/// A line that names a part and its version.
pub fn version_line(part: &str, version: &str) -> (r: String)
    ensures
        r@ == painted(Weight::Bold, Some(Hue::Green), part@) + " v"@ + version@,
{
    let mut out = paint(Weight::Bold, Some(Hue::Green), part);
    out.append(" v");
    out.append(version);
    out
}

} // verus!
