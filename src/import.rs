//! Riddles imported from a spreadsheet: its cells are placed into rows, the
//! first row names the columns, and each further row with a question and an
//! answer is one riddle.
use vstd::prelude::*;
use rand::seq::SliceRandom;
use crate::sheet::{place_cells, sheet_rows, SheetCell};
use crate::text::{contains, has_infix, same_text};

verus! {

/// The JSON array of strings that serde_json writes for `items`.
pub uninterp spec fn json_of_strings(items: Seq<Seq<char>>) -> Seq<char>;

pub open spec fn rows_view(rows: Seq<Vec<String>>) -> Seq<Seq<Seq<char>>> {
    rows.map_values(|row: Vec<String>| row@.map_values(|c: String| c@))
}

/// Relies on `rand::seq::SliceRandom::shuffle` with `rand::thread_rng()`:
/// the same items in a random order.
#[verifier::external_body]
fn shuffle_texts(v: &mut Vec<String>)
    ensures
        final(v)@.to_multiset() == old(v)@.to_multiset(),
        final(v)@.len() == old(v)@.len(),
{
    v.shuffle(&mut rand::thread_rng())
}

/// Relies on `serde_json::to_string` on a `Vec<String>`, which cannot fail
/// for strings: the JSON array of the items, a function of the items alone.
#[verifier::external_body]
pub(crate) fn strings_to_json(v: &Vec<String>) -> (r: String)
    ensures
        r@ == json_of_strings(v@.map_values(|s: String| s@)),
{
    serde_json::to_string(v).unwrap_or_default()
}

/// The fields of one imported riddle.
#[derive(Clone, Debug)]
pub struct ImportedRiddle {
    pub question: String,
    pub answer: String,
    pub remark: String,
    pub options: Vec<String>,
}

/// Why an import yields no riddles.
#[derive(Clone, Debug)]
pub enum ImportError {
    /// The sheet has no rows, not even the header.
    EmptySheet,
}

/// The fields of a row, as views: question, answer, remark, options.
pub struct RowFields {
    pub question: Seq<char>,
    pub answer: Seq<char>,
    pub remark: Seq<char>,
    pub options: Seq<Seq<char>>,
}

/// The column title of cell `i`: the header's, or empty past its end.
pub open spec fn title_at(headers: Seq<Seq<char>>, i: int) -> Seq<char> {
    if 0 <= i < headers.len() {
        headers[i]
    } else {
        Seq::empty()
    }
}

/// The fields that the cells of a row fill, by their column titles: the
/// question, the answer and the remark each from its column (a later cell
/// of the same title wins), and each non-empty cell of a column whose title
/// holds the word for option, in order.
pub open spec fn row_fields(headers: Seq<Seq<char>>, cells: Seq<Seq<char>>) -> RowFields
    decreases cells.len(),
{
    if cells.len() == 0 {
        RowFields { question: Seq::empty(), answer: Seq::empty(), remark: Seq::empty(), options: Seq::empty() }
    } else {
        let f = row_fields(headers, cells.drop_last());
        let t = title_at(headers, cells.len() - 1);
        let c = cells.last();
        if t == "灯谜题目"@ {
            RowFields { question: c, ..f }
        } else if t == "正确答案"@ {
            RowFields { answer: c, ..f }
        } else if t == "描述"@ {
            RowFields { remark: c, ..f }
        } else if has_infix(t, "选项"@) && c.len() > 0 {
            RowFields { options: f.options.push(c), ..f }
        } else {
            f
        }
    }
}

/// The riddles of a sheet's rows after the header: the rows with both a
/// question and an answer, in order.
pub open spec fn sheet_riddles(headers: Seq<Seq<char>>, rows: Seq<Seq<Seq<char>>>) -> Seq<RowFields>
    decreases rows.len(),
{
    if rows.len() == 0 {
        Seq::empty()
    } else {
        let init = sheet_riddles(headers, rows.drop_last());
        let f = row_fields(headers, rows.last());
        if f.question.len() > 0 && f.answer.len() > 0 {
            init.push(f)
        } else {
            init
        }
    }
}

impl ImportedRiddle {
    pub open spec fn fields(&self) -> RowFields {
        RowFields {
            question: self.question@,
            answer: self.answer@,
            remark: self.remark@,
            options: self.options@.map_values(|s: String| s@),
        }
    }

    /// Puts the options in a random order.
    pub fn shuffle_options(&mut self)
        ensures
            final(self).question == old(self).question,
            final(self).answer == old(self).answer,
            final(self).remark == old(self).remark,
            final(self).options@.to_multiset() == old(self).options@.to_multiset(),
    {
        shuffle_texts(&mut self.options);
    }

    /// The options as the JSON array that a riddle stores.
    pub fn options_json(&self) -> (r: String)
        ensures
            r@ == json_of_strings(self.options@.map_values(|s: String| s@)),
    {
        strings_to_json(&self.options)
    }
}

/// The fields of one row under the given column titles.
pub fn read_row(headers: &Vec<String>, cells: &Vec<String>) -> (r: ImportedRiddle)
    ensures
        r.fields() == row_fields(headers@.map_values(|s: String| s@), cells@.map_values(|s: String| s@)),
{
    let ghost hs = headers@.map_values(|s: String| s@);
    let ghost cs = cells@.map_values(|s: String| s@);
    let mut question = String::new();
    let mut answer = String::new();
    let mut remark = String::new();
    let mut options: Vec<String> = Vec::new();
    assert(options@.map_values(|s: String| s@) =~= Seq::<Seq<char>>::empty());
    let mut i: usize = 0;
    while i < cells.len()
        invariant
            0 <= i <= cells@.len(),
            hs == headers@.map_values(|s: String| s@),
            cs == cells@.map_values(|s: String| s@),
            (ImportedRiddle { question, answer, remark, options }).fields() == row_fields(hs, cs.subrange(0, i as int)),
        decreases cells@.len() - i,
    {
        proof {
            let next = cs.subrange(0, i + 1);
            assert(next.drop_last() =~= cs.subrange(0, i as int));
            assert(next.last() == cells@[i as int]@);
        }
        let empty = String::new();
        let title: &String = if i < headers.len() {
            &headers[i]
        } else {
            &empty
        };
        assert(title@ == title_at(hs, i as int));
        let cell = &cells[i];
        if same_text(title.as_str(), "灯谜题目") {
            question = cell.clone();
        } else if same_text(title.as_str(), "正确答案") {
            answer = cell.clone();
        } else if same_text(title.as_str(), "描述") {
            remark = cell.clone();
        } else if contains(title.as_str(), "选项") && !cell.as_str().is_empty() {
            let ghost before = options@;
            options.push(cell.clone());
            assert(options@.map_values(|s: String| s@) =~= before.map_values(|s: String| s@).push(cell@));
        }
        i += 1;
    }
    assert(cs.subrange(0, cells@.len() as int) =~= cs);
    ImportedRiddle { question, answer, remark, options }
}

/// The riddles of a sheet: the first row gives the column titles, each
/// further row with a question and an answer is one riddle.
pub fn import_sheet(rows: &Vec<Vec<String>>) -> (r: Result<Vec<ImportedRiddle>, ImportError>)
    ensures
        rows@.len() == 0 <==> r is Err,
        r is Err ==> r matches Err(ImportError::EmptySheet),
        r matches Ok(out) ==> out@.map_values(|x: ImportedRiddle| x.fields()) == sheet_riddles(
            rows_view(rows@)[0],
            rows_view(rows@).drop_first(),
        ),
{
    if rows.len() == 0 {
        return Err(ImportError::EmptySheet);
    }
    let headers = &rows[0];
    let ghost all = rows_view(rows@);
    let ghost hs = all[0];
    let ghost body = all.drop_first();
    let mut out: Vec<ImportedRiddle> = Vec::new();
    let mut k: usize = 1;
    while k < rows.len()
        invariant
            1 <= k <= rows@.len(),
            all == rows_view(rows@),
            hs == all[0],
            hs == headers@.map_values(|s: String| s@),
            body == all.drop_first(),
            out@.map_values(|x: ImportedRiddle| x.fields()) == sheet_riddles(hs, body.subrange(0, k - 1)),
        decreases rows@.len() - k,
    {
        proof {
            let next = body.subrange(0, k as int);
            assert(next.drop_last() =~= body.subrange(0, k - 1));
            assert(next.last() == rows@[k as int]@.map_values(|c: String| c@));
        }
        let f = read_row(headers, &rows[k]);
        if !f.question.as_str().is_empty() && !f.answer.as_str().is_empty() {
            let ghost before = out@;
            let ghost ff = f.fields();
            out.push(f);
            assert(out@.map_values(|x: ImportedRiddle| x.fields()) =~= before.map_values(|x: ImportedRiddle| x.fields()).push(ff));
        }
        k += 1;
    }
    assert(body.subrange(0, rows@.len() - 1) =~= body);
    Ok(out)
}

/// The riddles of a sheet given as its cells: the cells placed into rows,
/// the first row giving the column titles, each further row with a question
/// and an answer one riddle.
pub fn import_cells(cells: &Vec<SheetCell>) -> (r: Result<Vec<ImportedRiddle>, ImportError>)
    ensures
        sheet_rows(cells@).len() == 0 <==> r is Err,
        r matches Ok(out) ==> out@.map_values(|x: ImportedRiddle| x.fields()) == sheet_riddles(
            sheet_rows(cells@)[0],
            sheet_rows(cells@).drop_first(),
        ),
{
    let rows = place_cells(cells);
    assert(rows_view(rows@) == sheet_rows(cells@));
    import_sheet(&rows)
}

} // verus!
