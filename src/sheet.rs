//! A worksheet's cells, as a reader lists them, placed into rows.
use vstd::prelude::*;

verus! {

/// The number of columns a worksheet can have; cells beyond are ignored.
pub const SHEET_COLUMNS: u32 = 16384;

/// One cell: its zero-based row and column, and its text.
#[derive(Clone, Debug)]
pub struct SheetCell {
    pub row: u32,
    pub col: u32,
    pub text: String,
}

/// A cell that lies within the worksheet's columns.
pub open spec fn in_sheet(c: SheetCell) -> bool {
    c.col < SHEET_COLUMNS
}

/// The least column of the cells within the sheet, if there is one.
pub open spec fn col_min(cells: Seq<SheetCell>) -> Option<u32>
    decreases cells.len(),
{
    if cells.len() == 0 {
        None
    } else {
        let m = col_min(cells.drop_last());
        let c = cells.last();
        if !in_sheet(c) {
            m
        } else {
            match m {
                Some(x) => if c.col < x { Some(c.col) } else { Some(x) },
                None => Some(c.col),
            }
        }
    }
}

/// The greatest column of the cells within the sheet, if there is one.
pub open spec fn col_max(cells: Seq<SheetCell>) -> Option<u32>
    decreases cells.len(),
{
    if cells.len() == 0 {
        None
    } else {
        let m = col_max(cells.drop_last());
        let c = cells.last();
        if !in_sheet(c) {
            m
        } else {
            match m {
                Some(x) => if c.col > x { Some(c.col) } else { Some(x) },
                None => Some(c.col),
            }
        }
    }
}

/// A row of `w` empty texts.
pub open spec fn blank_row(w: nat) -> Seq<Seq<char>> {
    Seq::new(w, |i: int| Seq::<char>::empty())
}

/// The rows that the cells fill, and the row number of the last cell placed.
/// Cells are taken in order; a cell within the sheet starts a new row of `w`
/// empty texts unless it has the row number of the cell placed before it,
/// and its text goes to position `col - lo` (a later cell at the same
/// position wins).
pub open spec fn placement(cells: Seq<SheetCell>, lo: int, w: nat) -> (Seq<Seq<Seq<char>>>, Option<u32>)
    decreases cells.len(),
{
    if cells.len() == 0 {
        (Seq::empty(), None)
    } else {
        let prev = placement(cells.drop_last(), lo, w);
        let c = cells.last();
        if !in_sheet(c) {
            prev
        } else {
            let base = if prev.1 == Some(c.row) { prev.0 } else { prev.0.push(blank_row(w)) };
            (base.update(base.len() - 1, base.last().update(c.col - lo, c.text@)), Some(c.row))
        }
    }
}

/// The rows of a sheet: its cells placed from the least column to the
/// greatest, one row for each run of cells with the same row number.
pub open spec fn sheet_rows(cells: Seq<SheetCell>) -> Seq<Seq<Seq<char>>> {
    match (col_min(cells), col_max(cells)) {
        (Some(lo), Some(hi)) => placement(cells, lo as int, (hi - lo + 1) as nat).0,
        _ => Seq::empty(),
    }
}

proof fn lemma_col_bounds(cells: Seq<SheetCell>)
    ensures
        col_min(cells) is Some <==> col_max(cells) is Some,
        col_min(cells) is Some ==> col_min(cells)->Some_0 <= col_max(cells)->Some_0 < SHEET_COLUMNS,
        forall|k: int| 0 <= k < cells.len() && in_sheet(#[trigger] cells[k])
            ==> (col_min(cells) is Some && col_min(cells)->Some_0 <= cells[k].col <= col_max(cells)->Some_0),
    decreases cells.len(),
{
    if cells.len() > 0 {
        let init = cells.drop_last();
        lemma_col_bounds(init);
        assert forall|k: int| 0 <= k < cells.len() && in_sheet(#[trigger] cells[k])
            implies (col_min(cells) is Some && col_min(cells)->Some_0 <= cells[k].col <= col_max(cells)->Some_0) by {
            if k < cells.len() - 1 {
                assert(init[k] == cells[k]);
            }
        }
    }
}

proof fn lemma_placement_shape(cells: Seq<SheetCell>, lo: int, w: nat)
    requires
        forall|k: int| 0 <= k < cells.len() && in_sheet(#[trigger] cells[k]) ==> lo <= cells[k].col < lo + w,
    ensures
        forall|r: int| 0 <= r < placement(cells, lo, w).0.len() ==> #[trigger] placement(cells, lo, w).0[r].len() == w,
        placement(cells, lo, w).1 is Some ==> placement(cells, lo, w).0.len() > 0,
    decreases cells.len(),
{
    if cells.len() > 0 {
        let init = cells.drop_last();
        assert forall|k: int| 0 <= k < init.len() && in_sheet(#[trigger] init[k]) implies lo <= init[k].col < lo + w by {
            assert(init[k] == cells[k]);
        }
        lemma_placement_shape(init, lo, w);
        let prev = placement(init, lo, w);
        let c = cells.last();
        if in_sheet(c) {
            let base = if prev.1 == Some(c.row) { prev.0 } else { prev.0.push(blank_row(w)) };
            let rows = placement(cells, lo, w).0;
            assert forall|r: int| 0 <= r < rows.len() implies #[trigger] rows[r].len() == w by {
                assert(base[r].len() == w);
            }
        }
    }
}

/// Places a sheet's cells into rows.
pub fn place_cells(cells: &Vec<SheetCell>) -> (r: Vec<Vec<String>>)
    ensures
        r@.map_values(|row: Vec<String>| row@.map_values(|c: String| c@)) == sheet_rows(cells@),
{
    let ghost view = |rows: Seq<Vec<String>>| rows.map_values(|row: Vec<String>| row@.map_values(|c: String| c@));
    let mut lo: Option<u32> = None;
    let mut hi: Option<u32> = None;
    let mut i: usize = 0;
    while i < cells.len()
        invariant
            0 <= i <= cells@.len(),
            lo == col_min(cells@.subrange(0, i as int)),
            hi == col_max(cells@.subrange(0, i as int)),
        decreases cells@.len() - i,
    {
        proof {
            let next = cells@.subrange(0, i + 1);
            assert(next.drop_last() =~= cells@.subrange(0, i as int));
        }
        let c = &cells[i];
        if c.col < SHEET_COLUMNS {
            lo = match lo {
                Some(x) => if c.col < x { Some(c.col) } else { Some(x) },
                None => Some(c.col),
            };
            hi = match hi {
                Some(x) => if c.col > x { Some(c.col) } else { Some(x) },
                None => Some(c.col),
            };
        }
        i += 1;
    }
    assert(cells@.subrange(0, cells@.len() as int) =~= cells@);
    proof {
        lemma_col_bounds(cells@);
    }
    let mut rows: Vec<Vec<String>> = Vec::new();
    let (lo, hi) = match (lo, hi) {
        (Some(a), Some(b)) => (a, b),
        _ => {
            assert(rows@.map_values(|row: Vec<String>| row@.map_values(|c: String| c@)) =~= sheet_rows(cells@));
            return rows;
        },
    };
    let w: usize = (hi - lo + 1) as usize;
    proof {
        lemma_placement_shape(cells@, lo as int, w as nat);
    }
    let mut last: Option<u32> = None;
    let mut i: usize = 0;
    while i < cells.len()
        invariant
            0 <= i <= cells@.len(),
            lo <= hi < SHEET_COLUMNS,
            w == hi - lo + 1,
            forall|k: int| 0 <= k < cells@.len() && in_sheet(#[trigger] cells@[k]) ==> lo <= cells@[k].col <= hi,
            (rows@.map_values(|row: Vec<String>| row@.map_values(|c: String| c@)), last) == placement(
                cells@.subrange(0, i as int),
                lo as int,
                w as nat,
            ),
            forall|r: int| 0 <= r < rows@.len() ==> #[trigger] rows@[r]@.len() == w,
            last is Some ==> rows@.len() > 0,
        decreases cells@.len() - i,
    {
        let ghost before = rows@.map_values(|row: Vec<String>| row@.map_values(|c: String| c@));
        proof {
            let next = cells@.subrange(0, i + 1);
            assert(next.drop_last() =~= cells@.subrange(0, i as int));
            assert(next.last() == cells@[i as int]);
        }
        let c = &cells[i];
        if c.col < SHEET_COLUMNS {
            if last != Some(c.row) {
                let mut blank: Vec<String> = Vec::new();
                let mut j: usize = 0;
                while j < w
                    invariant
                        0 <= j <= w,
                        blank@.len() == j,
                        forall|k: int| 0 <= k < j ==> #[trigger] blank@[k]@ == Seq::<char>::empty(),
                    decreases w - j,
                {
                    let e = String::new();
                    blank.push(e);
                    j += 1;
                }
                assert(blank@.map_values(|s: String| s@) =~= blank_row(w as nat));
                let ghost b = blank@;
                rows.push(blank);
                assert(rows@.map_values(|row: Vec<String>| row@.map_values(|c: String| c@)) =~= before.push(blank_row(w as nat)));
            }
            let ghost base = rows@.map_values(|row: Vec<String>| row@.map_values(|c: String| c@));
            let n = rows.len();
            let mut row = rows.pop().unwrap();
            let ghost old_row = row@;
            let pos = (c.col - lo) as usize;
            let _ = row.remove(pos);
            row.insert(pos, c.text.clone());
            assert(row@.map_values(|s: String| s@) =~= old_row.map_values(|s: String| s@).update(pos as int, c.text@));
            rows.push(row);
            assert(rows@.map_values(|row: Vec<String>| row@.map_values(|c: String| c@)) =~= base.update(
                base.len() - 1,
                base.last().update(pos as int, c.text@),
            ));
            last = Some(c.row);
        }
        i += 1;
    }
    assert(cells@.subrange(0, cells@.len() as int) =~= cells@);
    rows
}

} // verus!
