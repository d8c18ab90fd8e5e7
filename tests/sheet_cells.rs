use lantern_riddle::import::{import_cells, ImportError};
use lantern_riddle::sheet::{place_cells, SheetCell};

fn cell(row: u32, col: u32, text: &str) -> SheetCell {
    SheetCell { row, col, text: text.to_string() }
}

fn texts(v: &[&str]) -> Vec<String> {
    v.iter().map(|s| s.to_string()).collect()
}

#[test]
fn cells_fill_rows_from_least_column() {
    let rows = place_cells(&vec![cell(0, 1, "a"), cell(0, 3, "b"), cell(4, 2, "c"), cell(4, 2, "d")]);
    assert_eq!(rows, vec![texts(&["a", "", "b"]), texts(&["", "d", ""])]);
    assert!(place_cells(&vec![]).is_empty());
}

#[test]
fn cells_out_of_order_do_not_fail() {
    let rows = place_cells(&vec![cell(4, 0, "late"), cell(1, 0, "early"), cell(4, 1, "x")]);
    assert_eq!(rows, vec![texts(&["late", ""]), texts(&["early", ""]), texts(&["", "x"])]);
}

#[test]
fn cells_beyond_last_column_are_ignored() {
    let rows = place_cells(&vec![cell(0, 0, "a"), cell(0, 16384, "far"), cell(0, u32::MAX, "farther")]);
    assert_eq!(rows, vec![texts(&["a"])]);
    assert!(place_cells(&vec![cell(0, 20000, "far")]).is_empty());
}

#[test]
fn sheet_cells_become_riddles() {
    let cells = vec![
        cell(0, 0, "灯谜题目"),
        cell(0, 1, "正确答案"),
        cell(0, 2, "选项1"),
        cell(0, 3, "描述"),
        cell(1, 0, "Moon in the water"),
        cell(1, 1, "reflection"),
        cell(1, 2, "7"),
        cell(1, 3, "easy"),
        cell(2, 0, "No answer here"),
    ];
    let riddles = import_cells(&cells).unwrap();
    assert_eq!(riddles.len(), 1);
    assert_eq!(riddles[0].question, "Moon in the water");
    assert_eq!(riddles[0].answer, "reflection");
    assert_eq!(riddles[0].remark, "easy");
    assert_eq!(riddles[0].options, texts(&["7"]));
    assert!(matches!(import_cells(&vec![]), Err(ImportError::EmptySheet)));
}
