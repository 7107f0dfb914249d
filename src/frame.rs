//! The text of one animation frame: the live region drawn as coloured glyphs.

use vstd::prelude::*;
use vstd::string::StringExecFns;

use crate::world::{Cell, Grid, World, HEIGHT, WIDTH};

verus! {

/// A control sequence: the escape character, `[`, then `body`.
pub open spec fn csi(body: Seq<char>) -> Seq<char> {
    seq!['\x1b', '['] + body
}

/// The decimal digit for `d`, which is below ten.
pub open spec fn digit(d: nat) -> char {
    seq!['0', '1', '2', '3', '4', '5', '6', '7', '8', '9'][d as int]
}

/// `n` written in decimal, without leading zeros.
pub open spec fn decimal(n: nat) -> Seq<char>
    decreases n,
{
    if n < 10 {
        seq![digit(n)]
    } else {
        decimal(n / 10) + seq![digit(n % 10)]
    }
}

/// The sequence that clears the whole screen.
pub open spec fn clear_code() -> Seq<char> {
    csi(seq!['2', 'J'])
}

/// The sequence that moves the cursor to column `col` of row `row`, both counted from one.
pub open spec fn goto_code(col: nat, row: nat) -> Seq<char> {
    csi(decimal(row) + seq![';'] + decimal(col) + seq!['H'])
}

/// The sequence that turns on bold text.
pub open spec fn bold_code() -> Seq<char> {
    csi(seq!['1', 'm'])
}

/// The sequence that sets the foreground to palette colour `index` (a single digit).
pub open spec fn fg_code(index: char) -> Seq<char> {
    csi(seq!['3', '8', ';', '5', ';', index, 'm'])
}

/// The sequence that restores the default foreground colour.
pub open spec fn fg_reset_code() -> Seq<char> {
    csi(seq!['3', '9', 'm'])
}

/// Red for a live cell, blue for a dead one.
pub open spec fn cell_color(c: Cell) -> Seq<char> {
    match c {
        Cell::AliveCell => fg_code('1'),
        Cell::DeadCell => fg_code('4'),
    }
}

/// One cell on screen: a space, then an `O` in the cell's colour.
pub open spec fn glyph(c: Cell) -> Seq<char> {
    seq![' '] + cell_color(c) + seq!['O'] + fg_reset_code()
}

/// The glyphs of columns `1..=n` of row `y`.
pub open spec fn row_text(g: Grid, y: int, n: nat) -> Seq<char>
    decreases n,
{
    if n == 0 {
        Seq::empty()
    } else {
        row_text(g, y, (n - 1) as nat) + glyph(g[y][n as int])
    }
}

/// Rows `1..=n` of the live region, each followed by a line break.
pub open spec fn rows_text(g: Grid, n: nat) -> Seq<char>
    decreases n,
{
    if n == 0 {
        Seq::empty()
    } else {
        rows_text(g, (n - 1) as nat) + row_text(g, n as int, WIDTH as nat) + seq!['\n']
    }
}

/// What precedes the rows: clear the screen, go to the top-left corner, turn on bold.
pub open spec fn frame_header() -> Seq<char> {
    clear_code() + goto_code(1, 1) + bold_code()
}

/// The whole frame for the grid `g`.
pub open spec fn frame_text(g: Grid) -> Seq<char> {
    frame_header() + rows_text(g, HEIGHT as nat)
}

/// Relies on the `Display` of `termion::clear::All`, which writes `ESC [ 2 J`.
#[verifier::external_body]
fn clear_all() -> (r: String)
    ensures
        r@ == clear_code(),
{
    format!("{}", termion::clear::All)
}

/// Relies on the `Display` of `termion::cursor::Goto(col, row)`, which writes
/// `ESC [ row ; col H` in decimal and asserts in debug builds that the two are not both zero.
#[verifier::external_body]
fn goto(col: u16, row: u16) -> (r: String)
    requires
        col != 0 || row != 0,
    ensures
        r@ == goto_code(col as nat, row as nat),
{
    format!("{}", termion::cursor::Goto(col, row))
}

/// Relies on the `Display` of `termion::style::Bold`, which writes `ESC [ 1 m`.
#[verifier::external_body]
fn bold() -> (r: String)
    ensures
        r@ == bold_code(),
{
    format!("{}", termion::style::Bold)
}

/// Relies on `termion::color::Red::fg_str`, which returns `ESC [ 3 8 ; 5 ; 1 m`.
#[verifier::external_body]
fn fg_red() -> (r: String)
    ensures
        r@ == fg_code('1'),
{
    termion::color::Red.fg_str().to_string()
}

/// Relies on `termion::color::Blue::fg_str`, which returns `ESC [ 3 8 ; 5 ; 4 m`.
#[verifier::external_body]
fn fg_blue() -> (r: String)
    ensures
        r@ == fg_code('4'),
{
    termion::color::Blue.fg_str().to_string()
}

/// Relies on `termion::color::Reset::fg_str`, which returns `ESC [ 3 9 m`.
#[verifier::external_body]
fn fg_reset() -> (r: String)
    ensures
        r@ == fg_reset_code(),
{
    termion::color::Reset.fg_str().to_string()
}

impl World {
    /// The frame that draws this world: the screen is cleared, the cursor sent home and bold
    /// turned on; then each row of the live region from the top, each cell from the left as a
    /// space and an `O`, red where alive and blue where dead, and a line break after each row.
    pub fn frame(&self) -> (s: String)
        requires
            self.wf(),
        ensures
            s@ == frame_text(self@),
    {
        let red = fg_red();
        let blue = fg_blue();
        let reset = fg_reset();
        let mut s = clear_all();
        let home = goto(1, 1);
        s.append(home.as_str());
        let b = bold();
        s.append(b.as_str());
        proof {
            reveal_strlit(" ");
            reveal_strlit("O");
            reveal_strlit("\n");
            assert(decimal(1) == seq!['1']);
            assert(s@ == frame_header() + rows_text(self@, 0));
        }
        let mut y: usize = 1;
        while y <= HEIGHT
            invariant
                1 <= y <= HEIGHT + 1,
                self.wf(),
                red@ == fg_code('1'),
                blue@ == fg_code('4'),
                reset@ == fg_reset_code(),
                s@ == frame_header() + rows_text(self@, (y - 1) as nat),
            decreases HEIGHT + 1 - y,
        {
            let ghost line_start = s@;
            let mut x: usize = 1;
            while x <= WIDTH
                invariant
                    1 <= x <= WIDTH + 1,
                    1 <= y <= HEIGHT,
                    self.wf(),
                    red@ == fg_code('1'),
                    blue@ == fg_code('4'),
                    reset@ == fg_reset_code(),
                    s@ == line_start + row_text(self@, y as int, (x - 1) as nat),
                decreases WIDTH + 1 - x,
            {
                let c = self.get(x, y);
                let ghost before = s@;
                s.append(" ");
                if c.is_alive() {
                    s.append(red.as_str());
                } else {
                    s.append(blue.as_str());
                }
                s.append("O");
                s.append(reset.as_str());
                proof {
                    reveal_strlit(" ");
                    reveal_strlit("O");
                    assert(s@ =~= before + glyph(c));
                    assert(s@ =~= line_start + row_text(self@, y as int, x as nat));
                }
                x = x + 1;
            }
            s.append("\n");
            proof {
                reveal_strlit("\n");
                assert(s@ =~= frame_header() + rows_text(self@, y as nat));
            }
            y = y + 1;
        }
        s
    }
}

} // verus!
