use vstd::prelude::*;
use vstd::string::StringExecFns;

use crate::interpreter::Pixels;
use crate::machine::{SCREEN_CELLS, SCREEN_HEIGHT, SCREEN_WIDTH};

verus! {

/// A text display for the framebuffer.
pub struct Screen {}

/// `#` for a lit cell, a space for an unlit one.
pub open spec fn cell_char(lit: bool) -> char {
    if lit {
        '#'
    } else {
        ' '
    }
}

/// A border line: `@` across the row and both side borders, then a newline.
pub open spec fn border_line() -> Seq<char> {
    Seq::new((SCREEN_WIDTH + 2) as nat, |i: int| '@') + seq!['\n']
}

/// The first `n` cells of framebuffer row `r`.
pub open spec fn row_cells(pixels: Seq<bool>, r: int, n: int) -> Seq<char> {
    Seq::new(n as nat, |c: int| cell_char(pixels[r * SCREEN_WIDTH + c]))
}

/// Framebuffer row `r` between side borders, then a newline.
pub open spec fn row_line(pixels: Seq<bool>, r: int) -> Seq<char> {
    seq!['@'] + row_cells(pixels, r, SCREEN_WIDTH as int) + seq!['@', '\n']
}

/// The lines of the first `n` framebuffer rows.
pub open spec fn rows_text(pixels: Seq<bool>, n: nat) -> Seq<char>
    decreases n,
{
    if n == 0 {
        Seq::empty()
    } else {
        rows_text(pixels, (n - 1) as nat) + row_line(pixels, n - 1)
    }
}

/// The whole framebuffer as text: a border line, one line per row, a border line.
pub open spec fn screen_text(pixels: Seq<bool>) -> Seq<char> {
    border_line() + rows_text(pixels, SCREEN_HEIGHT as nat) + border_line()
}

impl Screen {
    pub fn new() -> (r: Self) {
        Screen {  }
    }

    /// Appends a border line to `out`.
    fn push_border(out: &mut String)
        ensures
            final(out)@ == old(out)@ + border_line(),
    {
        let ghost start = out@;
        let mut i: usize = 0;
        while i < SCREEN_WIDTH + 2
            invariant
                i <= SCREEN_WIDTH + 2,
                out@ == start + Seq::new(i as nat, |j: int| '@'),
            decreases SCREEN_WIDTH + 2 - i,
        {
            out.append("@");
            proof {
                reveal_strlit("@");
                assert(out@ =~= start + Seq::new((i + 1) as nat, |j: int| '@'));
            }
            i = i + 1;
        }
        out.append("\n");
        proof {
            reveal_strlit("\n");
            assert(out@ =~= start + border_line());
        }
    }

    /// The framebuffer drawn as text, `#` for each lit cell and a space for each
    /// unlit one, framed by `@`.
    pub fn render(&self, pixels: &Pixels) -> (r: String)
        ensures
            r@ == screen_text(pixels@),
    {
        let mut out = String::new();
        Self::push_border(&mut out);
        let mut row: usize = 0;
        while row < SCREEN_HEIGHT
            invariant
                row <= SCREEN_HEIGHT,
                pixels@.len() == SCREEN_CELLS,
                out@ == border_line() + rows_text(pixels@, row as nat),
            decreases SCREEN_HEIGHT - row,
        {
            let ghost before = out@;
            out.append("@");
            proof {
                reveal_strlit("@");
            }
            let mut col: usize = 0;
            while col < SCREEN_WIDTH
                invariant
                    row < SCREEN_HEIGHT,
                    col <= SCREEN_WIDTH,
                    pixels@.len() == SCREEN_CELLS,
                    out@ == before + seq!['@'] + row_cells(pixels@, row as int, col as int),
                decreases SCREEN_WIDTH - col,
            {
                if pixels[row * SCREEN_WIDTH + col] {
                    out.append("#");
                } else {
                    out.append(" ");
                }
                proof {
                    reveal_strlit("#");
                    reveal_strlit(" ");
                    assert(out@ =~= before + seq!['@'] + row_cells(
                        pixels@,
                        row as int,
                        col + 1,
                    ));
                }
                col = col + 1;
            }
            out.append("@\n");
            proof {
                reveal_strlit("@\n");
                assert(out@ =~= border_line() + rows_text(pixels@, (row + 1) as nat));
            }
            row = row + 1;
        }
        Self::push_border(&mut out);
        out
    }
}

} // verus!
