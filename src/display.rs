//! Text rendering of a matrix as a boxed grid:
//!
//! ```text
//! ┌       ┐
//! │ 1  20 │
//! │ 3  1  │
//! └       ┘
//! ```
//!
//! Each element's text is left-aligned and padded with spaces to the widest
//! text of the matrix, and every cell is followed by one space.
use vstd::prelude::*;

use vstd::string::{StrSliceExecFns, StringExecFns, to_string_from_display_ensures};

use crate::layout::lemma_cell;
use crate::matrix::Matrix;

verus! {

/// `n` spaces.
pub open spec fn spaces(n: nat) -> Seq<char> {
    Seq::new(n, |i: int| ' ')
}

/// `s` followed by spaces up to `width` characters; `s` itself when it is
/// already that wide.
pub open spec fn padded(s: Seq<char>, width: nat) -> Seq<char> {
    if s.len() >= width {
        s
    } else {
        s + spaces((width - s.len()) as nat)
    }
}

/// The length of the longest of `cells`; 0 when there are none.
pub open spec fn widest(cells: Seq<Seq<char>>) -> nat
    decreases cells.len(),
{
    if cells.len() == 0 {
        0
    } else if cells.last().len() > widest(cells.drop_last()) {
        cells.last().len()
    } else {
        widest(cells.drop_last())
    }
}

/// The `count` cells from `start` on, each padded to `cell_width` and
/// followed by a space.
pub open spec fn cells_line(cells: Seq<Seq<char>>, start: int, count: nat, cell_width: nat) -> Seq<
    char,
>
    decreases count,
{
    if count == 0 {
        Seq::empty()
    } else {
        cells_line(cells, start, (count - 1) as nat, cell_width) + padded(
            cells[start + count - 1],
            cell_width,
        ) + seq![' ']
    }
}

/// The first `n` rows of a `w`-wide grid, each on a new line between side bars.
pub open spec fn rows_text(cells: Seq<Seq<char>>, w: nat, cell_width: nat, n: nat) -> Seq<char>
    decreases n,
{
    if n == 0 {
        Seq::empty()
    } else {
        rows_text(cells, w, cell_width, (n - 1) as nat) + seq!['\n', '│', ' '] + cells_line(
            cells,
            (n - 1) * w,
            w,
            cell_width,
        ) + seq!['│']
    }
}

/// The blank inside of the top and bottom borders of a `w`-wide grid.
pub open spec fn border(w: nat, cell_width: nat) -> Seq<char> {
    spaces(w * (cell_width + 1) + 1)
}

/// The boxed grid of the `w`-by-`h` row-major `cells`. The rows are left out
/// when there are no cells.
pub open spec fn boxed_grid(cells: Seq<Seq<char>>, w: nat, h: nat) -> Seq<char> {
    let cell_width = widest(cells);
    seq!['┌'] + border(w, cell_width) + seq!['┐'] + (if w * h > 0 {
        rows_text(cells, w, cell_width, h)
    } else {
        Seq::empty()
    }) + seq!['\n', '└'] + border(w, cell_width) + seq!['┘']
}

/// The characters of each string.
pub open spec fn texts(cells: Seq<String>) -> Seq<Seq<char>> {
    cells.map_values(|s: String| s@)
}

/// No cell is wider than the widest one.
proof fn lemma_widest_bound(cells: Seq<Seq<char>>, k: int)
    requires
        0 <= k < cells.len(),
    ensures
        cells[k].len() <= widest(cells),
    decreases cells.len(),
{
    if k < cells.len() - 1 {
        lemma_widest_bound(cells.drop_last(), k);
    }
}

fn push_spaces(s: &mut String, n: usize)
    ensures
        final(s)@ == old(s)@ + spaces(n as nat),
{
    let ghost start = s@;
    let mut i: usize = 0;
    while i < n
        invariant
            i <= n,
            s@ == start + spaces(i as nat),
        decreases n - i,
    {
        s.append(" ");
        proof {
            reveal_strlit(" ");
        }
        i = i + 1;
        assert(s@ =~= start + spaces(i as nat));
    }
}

fn push_border(s: &mut String, w: usize, cell_width: usize)
    ensures
        final(s)@ == old(s)@ + border(w as nat, cell_width as nat),
{
    let ghost start = s@;
    let mut j: usize = 0;
    while j < w
        invariant
            j <= w,
            s@ == start + spaces((j * (cell_width + 1)) as nat),
        decreases w - j,
    {
        push_spaces(s, cell_width);
        push_spaces(s, 1);
        proof {
            assert((j + 1) * (cell_width + 1) == j * (cell_width + 1) + cell_width + 1)
                by (nonlinear_arith);
        }
        j = j + 1;
        assert(s@ =~= start + spaces((j * (cell_width + 1)) as nat));
    }
    push_spaces(s, 1);
    assert(s@ =~= start + border(w as nat, cell_width as nat));
}

/// Draws the `width`-by-`height` row-major `cells` as a boxed grid.
pub fn render_grid(width: usize, height: usize, cells: &Vec<String>) -> (r: String)
    requires
        cells@.len() == width * height,
    ensures
        r@ == boxed_grid(texts(cells@), width as nat, height as nat),
{
    let ghost views = texts(cells@);
    let n_cells = cells.len();
    let mut cell_width: usize = 0;
    let mut k: usize = 0;
    while k < cells.len()
        invariant
            views == texts(cells@),
            k <= cells@.len(),
            cell_width == widest(views.take(k as int)),
        decreases cells@.len() - k,
    {
        let len = cells[k].as_str().unicode_len();
        proof {
            assert(views.take(k + 1).drop_last() =~= views.take(k as int));
        }
        if len > cell_width {
            cell_width = len;
        }
        k = k + 1;
    }
    assert(views.take(cells@.len() as int) =~= views);
    let mut r = String::new();
    r.append("┌");
    push_border(&mut r, width, cell_width);
    r.append("┐");
    proof {
        reveal_strlit("┌");
        reveal_strlit("┐");
    }
    let ghost top = seq!['┌'] + border(width as nat, cell_width as nat) + seq!['┐'];
    assert(r@ =~= top);
    if width > 0 && height > 0 {
        let mut i: usize = 0;
        while i < height
            invariant
                views == texts(cells@),
                cell_width == widest(views),
                cells@.len() == width * height,
                n_cells == cells@.len(),
                0 < width,
                i <= height,
                r@ == top + rows_text(views, width as nat, cell_width as nat, i as nat),
            decreases height - i,
        {
            r.append("\n│ ");
            proof {
                reveal_strlit("\n│ ");
            }
            let mut j: usize = 0;
            while j < width
                invariant
                    views == texts(cells@),
                    cell_width == widest(views),
                    cells@.len() == width * height,
                    n_cells == cells@.len(),
                    i < height,
                    j <= width,
                    r@ == top + rows_text(views, width as nat, cell_width as nat, i as nat) + seq![
                        '\n',
                        '│',
                        ' ',
                    ] + cells_line(views, i * width, j as nat, cell_width as nat),
                decreases width - j,
            {
                proof {
                    lemma_cell(i as int, j as int, width as int, height as int);
                    vstd::arithmetic::mul::lemma_mul_is_commutative(width as int, height as int);
                    lemma_widest_bound(views, i * width + j);
                }
                let cell = cells[i * width + j].as_str();
                let len = cell.unicode_len();
                r.append(cell);
                push_spaces(&mut r, cell_width - len);
                r.append(" ");
                proof {
                    reveal_strlit(" ");
                }
                j = j + 1;
                assert(r@ =~= top + rows_text(views, width as nat, cell_width as nat, i as nat)
                    + seq!['\n', '│', ' '] + cells_line(
                    views,
                    i * width,
                    j as nat,
                    cell_width as nat,
                ));
            }
            r.append("│");
            proof {
                reveal_strlit("│");
            }
            i = i + 1;
            assert(r@ =~= top + rows_text(views, width as nat, cell_width as nat, i as nat));
        }
        proof {
            assert(width * height > 0) by (nonlinear_arith)
                requires
                    width > 0,
                    height > 0,
            ;
        }
    } else {
        proof {
            assert(width * height == 0) by (nonlinear_arith)
                requires
                    width == 0 || height == 0,
            ;
        }
    }
    let ghost middle = r@;
    r.append("\n└");
    push_border(&mut r, width, cell_width);
    r.append("┘");
    proof {
        reveal_strlit("\n└");
        reveal_strlit("┘");
    }
    assert(r@ =~= boxed_grid(views, width as nat, height as nat));
    r
}

impl<T: std::fmt::Display> Matrix<T> {
    /// The matrix drawn as a boxed grid of its elements' `Display` texts.
    pub fn to_string(&self) -> (r: String)
        requires
            self.well_formed(),
        ensures
            exists|cells: Seq<String>|
                {
                    &&& cells.len() == self@.len()
                    &&& forall|k: int|
                        0 <= k < cells.len() ==> to_string_from_display_ensures::<T>(
                            &self@[k],
                            #[trigger] cells[k],
                        )
                    &&& r@ == boxed_grid(texts(cells), self.num_cols(), self.num_rows())
                },
    {
        let data = self.as_vec();
        let mut cells: Vec<String> = Vec::with_capacity(data.len());
        let mut k: usize = 0;
        while k < data.len()
            invariant
                data@ == self@,
                k <= data@.len(),
                cells@.len() == k,
                forall|p: int|
                    0 <= p < k ==> to_string_from_display_ensures::<T>(
                        &self@[p],
                        #[trigger] cells@[p],
                    ),
            decreases data@.len() - k,
        {
            cells.push(data[k].to_string());
            k = k + 1;
        }
        proof {
            self.lemma_layout();
            vstd::arithmetic::mul::lemma_mul_is_commutative(
                self.num_rows() as int,
                self.num_cols() as int,
            );
        }
        render_grid(self.width(), self.height(), &cells)
    }
}

} // verus!
