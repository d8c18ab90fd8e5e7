use lantern_riddle::authoring::{FlagValue, RiddleUpsertPayload};
use lantern_riddle::engine::{ContestStore, Outcome};
use lantern_riddle::identity::{avatar_file_name, avatar_path, new_user_code, user_code_from};
use lantern_riddle::import::{import_sheet, read_row, ImportError, ImportedRiddle};
use lantern_riddle::models::Riddle;
use lantern_riddle::params::default_activity;
use lantern_riddle::window::ActivityWindow;

fn texts(v: &[&str]) -> Vec<String> {
    v.iter().map(|s| s.to_string()).collect()
}

#[test]
fn row_cells_fill_fields_by_title() {
    let headers = texts(&["灯谜题目", "正确答案", "描述", "选项A", "选项B", "其他", "选项C"]);
    let r = read_row(&headers, &texts(&["Q", "A", "R", "x", "", "y", "z", "extra"]));
    assert_eq!(r.question, "Q");
    assert_eq!(r.answer, "A");
    assert_eq!(r.remark, "R");
    assert_eq!(r.options, texts(&["x", "z"]));
}

#[test]
fn sheet_rows_with_question_and_answer_are_riddles() {
    let rows = vec![
        texts(&["灯谜题目", "正确答案"]),
        texts(&["Q1", "A1"]),
        texts(&["Q2", ""]),
        texts(&["Q3", "A3"]),
    ];
    let out = import_sheet(&rows).unwrap();
    assert_eq!(out.len(), 2);
    assert_eq!(out[1].question, "Q3");
    assert!(matches!(import_sheet(&vec![]), Err(ImportError::EmptySheet)));
    assert!(import_sheet(&vec![texts(&["灯谜题目"])]).unwrap().is_empty());
}

#[test]
fn options_shuffle_keeps_items_and_encode_as_json() {
    let mut r = ImportedRiddle {
        question: "Q".to_string(),
        answer: "A".to_string(),
        remark: String::new(),
        options: texts(&["a", "b", "c", "d"]),
    };
    r.shuffle_options();
    let mut sorted = r.options.clone();
    sorted.sort();
    assert_eq!(sorted, texts(&["a", "b", "c", "d"]));
    r.options = texts(&["a", "\"b\""]);
    assert_eq!(r.options_json(), "[\"a\",\"\\\"b\\\"\"]");
}

fn stored() -> Riddle {
    Riddle {
        id: 4,
        question: "old q".to_string(),
        remark: None,
        options_json: "[]".to_string(),
        answer: "old a".to_string(),
        add_time: Some(9),
        is_solved: true,
        solver_id: Some(2),
    }
}

#[test]
fn edits_replace_given_fields() {
    let p = RiddleUpsertPayload {
        id: Some(4),
        question: Some("new q".to_string()),
        answer: None,
        remark: None,
        options: Some(texts(&["x"])),
        reset_status: Some(FlagValue::Bool(false)),
    };
    let r = p.apply_to(&stored());
    assert_eq!(r.question, "new q");
    assert_eq!(r.answer, "old a");
    assert_eq!(r.remark, Some(String::new()));
    assert_eq!(r.options_json, "[\"x\"]");
    assert!(r.is_solved);
    assert_eq!(r.solver_id, Some(2));
    assert_eq!(r.add_time, Some(9));
}

#[test]
fn reset_flag_clears_winner() {
    for flag in [FlagValue::Bool(true), FlagValue::Text("true".to_string())] {
        let p = RiddleUpsertPayload {
            id: Some(4),
            question: None,
            answer: None,
            remark: Some("r".to_string()),
            options: None,
            reset_status: Some(flag),
        };
        assert!(p.asks_reset());
        let r = p.apply_to(&stored());
        assert!(!r.is_solved);
        assert_eq!(r.solver_id, None);
        assert_eq!(r.remark, Some("r".to_string()));
        assert_eq!(r.options_json, "[]");
    }
    let p = RiddleUpsertPayload {
        id: None,
        question: None,
        answer: None,
        remark: None,
        options: None,
        reset_status: Some(FlagValue::Text("yes".to_string())),
    };
    assert!(!p.asks_reset());
}

#[test]
fn new_riddle_from_payload() {
    let p = RiddleUpsertPayload {
        id: None,
        question: Some("q".to_string()),
        answer: Some("a".to_string()),
        remark: None,
        options: None,
        reset_status: None,
    };
    let r = p.new_riddle(12, 100);
    assert_eq!(r.id, 12);
    assert_eq!(r.question, "q");
    assert_eq!(r.remark, Some(String::new()));
    assert_eq!(r.options_json, "[]");
    assert_eq!(r.add_time, Some(100));
    assert!(!r.is_solved);
}

#[test]
fn user_codes_and_avatar_paths() {
    assert_eq!(user_code_from("67e5504410b1426f9247bb680e5fe0c8"), "67E55044");
    assert_eq!(user_code_from("ab"), "AB");
    let code = new_user_code();
    assert_eq!(code.len(), 8);
    assert!(code.chars().all(|c| c.is_ascii_digit() || ('A'..='F').contains(&c)));
    assert_eq!(avatar_file_name("abc", "me.jpeg"), "abc.jpeg");
    assert_eq!(avatar_file_name("abc", "me"), "abc.png");
    assert_eq!(avatar_path("2024/02/24", "abc", "photo.JPG"), "/avatar/2024/02/24/abc.JPG");
}

#[test]
fn leaderboard_lists_winning_rows_in_order() {
    let mut c = ContestStore::new();
    c.set_window(ActivityWindow::new(0, 100));
    assert!(c.add_riddle(Riddle::unsolved(1, "q1".to_string(), "a".to_string(), "[]".to_string())));
    assert!(c.add_riddle(Riddle::unsolved(2, "q2".to_string(), "b".to_string(), "[]".to_string())));
    assert_eq!(c.submit_answer(5, 2, "b", 1), Ok(Outcome::Win));
    assert_eq!(c.submit_answer(6, 2, "b", 2), Ok(Outcome::LostRace));
    assert_eq!(c.submit_answer(6, 1, "x", 3), Ok(Outcome::WrongAnswer));
    assert_eq!(c.submit_answer(7, 1, "A", 4), Ok(Outcome::Win));
    let rows = c.winning_rows();
    assert_eq!(rows.len(), 2);
    assert_eq!((rows[0].user_id, rows[0].riddle_id), (5, 2));
    assert_eq!((rows[1].user_id, rows[1].riddle_id), (7, 1));
    assert_eq!(c.leaderboard_page(1, 1)[0].user_id, 5);
    assert_eq!(c.leaderboard_page(0, 1)[0].user_id, 5);
    assert_eq!(c.leaderboard_page(2, 1)[0].user_id, 7);
    assert!(c.leaderboard_page(3, 1).is_empty());
    assert_eq!(c.leaderboard_page(1, 10).len(), 2);
    assert!(c.leaderboard_page(u32::MAX, u32::MAX).is_empty());
}

#[test]
fn default_activity_spans_a_day() {
    let (name, w) = default_activity(100);
    assert_eq!(name, "元宵猜灯谜");
    assert_eq!(w, ActivityWindow::new(100, 100 + 86400));
}
