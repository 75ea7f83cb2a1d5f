//! The textual layout of a grid: one line per row, the cells of a row
//! in order, neighbours separated by a comma and a space, and a line
//! break closing every row, the last one included.
//!
//! The text of a single cell — the decimal form of the double held
//! there — is floating-point work and cannot stand in verified code, so
//! the caller supplies one string per cell and the verified layout is
//! exact over those strings.

use vstd::prelude::*;
use crate::matrix::Matrix;

verus! {

/// The separator between neighbouring cells of one row.
pub open spec fn sep_text() -> Seq<char> {
    seq![',', ' ']
}

/// One row's text: the given cell texts in order, neighbours separated
/// by `sep_text()`, without a line break.
pub open spec fn row_text(cells: Seq<Seq<char>>) -> Seq<char>
    decreases cells.len(),
{
    if cells.len() == 0 {
        Seq::empty()
    } else if cells.len() == 1 {
        cells[0]
    } else {
        row_text(cells.drop_last()) + sep_text() + cells.last()
    }
}

/// The whole grid's text: for each of the `rows` rows in order, the
/// row's text over its `cols` cell texts (taken row-major from `cells`)
/// followed by a line break.
pub open spec fn table_text(cells: Seq<Seq<char>>, rows: int, cols: int) -> Seq<char>
    decreases rows,
{
    if rows <= 0 {
        Seq::empty()
    } else {
        table_text(cells, rows - 1, cols) + row_text(
            cells.subrange((rows - 1) * cols, rows * cols),
        ) + seq!['\n']
    }
}

impl Matrix {
    /// Lay the grid out as text, one string per cell in row-major order
    /// supplied by the caller: one line per row, the row's cell texts in
    /// order and separated by a comma and a space, and a line break
    /// closing every row, the last one included.
    pub fn render(&self, cells: &Vec<String>) -> (r: String)
        requires
            cells@.len() == self.spec_rows() * self.spec_cols(),
        ensures
            r@ == table_text(
                cells@.map_values(|s: String| s@),
                self.spec_rows(),
                self.spec_cols(),
            ),
    {
        let rows = self.row();
        let cols = self.col();
        let ghost cmap = cells@.map_values(|s: String| s@);
        let mut out = String::new();
        let mut i: usize = 0;
        while i < rows
            invariant
                i <= rows,
                rows == self.spec_rows(),
                cols == self.spec_cols(),
                cells@.len() == rows * cols,
                cmap == cells@.map_values(|s: String| s@),
                out@ == table_text(cmap, i as int, cols as int),
            decreases rows - i,
        {
            let ghost base = (i as int) * (cols as int);
            proof {
                assert(0 <= base && base + (cols as int) <= (rows as int) * (cols
                    as int)) by (nonlinear_arith)
                    requires
                        0 <= i < rows,
                        base == (i as int) * (cols as int),
                ;
                assert(cmap.len() == cells@.len());
                assert(cmap.subrange(base, base) =~= Seq::<Seq<char>>::empty());
                assert(out@ =~= out@ + row_text(cmap.subrange(base, base)));
            }
            let mut j: usize = 0;
            while j < cols
                invariant
                    i < rows,
                    j <= cols,
                    rows == self.spec_rows(),
                    cols == self.spec_cols(),
                    cells@.len() == rows * cols,
                    cmap == cells@.map_values(|s: String| s@),
                    base == (i as int) * (cols as int),
                    out@ == table_text(cmap, i as int, cols as int) + row_text(
                        cmap.subrange(base, base + j),
                    ),
                decreases cols - j,
            {
                let ghost out_before = out@;
                if j > 0 {
                    out.append(", ");
                    proof {
                        reveal_strlit(", ");
                        assert((", ")@ =~= sep_text());
                    }
                }
                let n = cells.len();
                proof {
                    crate::matrix::lemma_flat_index(i as int, j as int, rows as int, cols as int);
                    assert(base + (j as int) < (n as int));
                }
                out.append(cells[i * cols + j].as_str());
                proof {
                    assert(cmap[base + j] == cells@[base + j]@);
                    if j == 0 {
                        assert(cmap.subrange(base, base + 1) =~= seq![cmap[base]]);
                        assert(row_text(cmap.subrange(base, base + 1)) == cmap[base]);
                        assert(out@ =~= table_text(cmap, i as int, cols as int) + cmap[base]);
                    } else {
                        let grown = cmap.subrange(base, base + (j as int) + 1);
                        assert(grown.drop_last() =~= cmap.subrange(base, base + (j as int)));
                        assert(grown.last() == cmap[base + j]);
                        assert(row_text(grown) == row_text(grown.drop_last()) + sep_text()
                            + grown.last());
                        assert(out@ =~= table_text(cmap, i as int, cols as int) + row_text(grown));
                    }
                }
                j = j + 1;
            }
            out.append("\n");
            proof {
                reveal_strlit("\n");
                assert(("\n")@ =~= seq!['\n']);
                assert(((i as int) + 1) * (cols as int) == (i as int) * (cols as int) + (cols
                    as int)) by (nonlinear_arith);
                assert(out@ =~= table_text(cmap, (i as int) + 1, cols as int));
            }
            i = i + 1;
        }
        out
    }
}

} // verus!
