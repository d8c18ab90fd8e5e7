use lantern_riddle::answer::{answers_match, is_valid_answer_text, normalize_answer, normalized_answers_match};
use lantern_riddle::models::User;
use lantern_riddle::notify::riddle_solved_event;
use lantern_riddle::params::{
    body_is_json, id_from_text, like_pattern, offset_of, total_pages, ActivityPayload, ExportParams, GuessPayload,
    PaginationParams, RiddleIdValue, RiddleParams,
};
use lantern_riddle::text::{contains, split_text, starts_with};

#[test]
fn answers_are_trimmed_and_lowercased() {
    assert_eq!(normalize_answer("  LaNtErN \t"), "lantern");
    assert_eq!(normalize_answer("ÄPFEL"), "äpfel");
    assert!(answers_match("Lantern ", "lantern"));
    assert!(answers_match("lantern", " LANTERN"));
    assert!(!answers_match("lanterns", "lantern"));
    assert!(answers_match("元宵", "元宵"));
    assert!(normalized_answers_match(&"abc".to_string(), &"abc".to_string()));
    assert!(!normalized_answers_match(&"abc".to_string(), &"Abc".to_string()));
}

#[test]
fn blank_answers_are_not_valid() {
    assert!(!is_valid_answer_text(""));
    assert!(!is_valid_answer_text(" \n\t "));
    assert!(is_valid_answer_text(" a "));
}

#[test]
fn integers_parse_in_decimal() {
    let id = |t: &str| GuessPayload { riddle_id: RiddleIdValue::Text(t.to_string()), answer: String::new() }.riddle_id_number();
    assert_eq!(id("42"), Some(42));
    assert_eq!(id("-7"), Some(-7));
    assert_eq!(id("+7"), Some(7));
    assert_eq!(id("9223372036854775807"), Some(i64::MAX));
    assert_eq!(id(""), None);
    assert_eq!(id(" 1"), None);
    assert_eq!(id("1x"), None);
    assert_eq!(id("-"), None);
    assert_eq!(id("9223372036854775808"), None);
    assert_eq!(id_from_text("-9223372036854775808"), Some(i64::MIN));
    assert_eq!(id_from_text("12"), Some(12));
    assert_eq!(id_from_text("0x12"), None);
}

#[test]
fn texts_split_on_separator() {
    assert_eq!(split_text("", ','), vec![String::new()]);
    assert_eq!(split_text("1,,x,3", ','), vec!["1", "", "x", "3"]);
    assert_eq!(split_text("a,", ','), vec!["a", ""]);
    assert!(starts_with("application/json; charset=utf-8", "application/json"));
    assert!(starts_with("abc", ""));
    assert!(!starts_with("ab", "abc"));
    assert!(!starts_with("text/plain", "application/json"));
    assert!(contains("https://tauri.localhost", "tauri.localhost"));
    assert!(contains("abc", "c"));
    assert!(contains("", ""));
    assert!(!contains("http://localhost:9000", "tauri.localhost"));
    assert!(!contains("ab", "abc"));
}

#[test]
fn pages_and_offsets() {
    assert_eq!(offset_of(1, 10), 0);
    assert_eq!(offset_of(3, 10), 20);
    assert_eq!(offset_of(0, 10), 0);
    assert_eq!(offset_of(u32::MAX, u32::MAX), (u32::MAX as u64 - 1) * u32::MAX as u64);
    assert_eq!(total_pages(0, 10), 0);
    assert_eq!(total_pages(10, 10), 1);
    assert_eq!(total_pages(11, 10), 2);
    assert_eq!(total_pages(5, 0), 0);
    assert_eq!(total_pages(i64::MAX, 1), i64::MAX);
    let p = PaginationParams { page: Some(2), page_size: None, keyword: Some("li".to_string()) };
    assert_eq!(p.page_number(), 2);
    assert_eq!(p.size(), 10);
    assert_eq!(p.offset(), 10);
    assert_eq!(p.keyword_text(), "li");
    let q = PaginationParams { page: None, page_size: Some(5), keyword: None };
    assert_eq!(q.offset(), 0);
    assert_eq!(q.keyword_text(), "");
}

#[test]
fn riddle_listing_params() {
    let p = RiddleParams { page: Some(3), page_size: None, exclude_ids: Some("4,x,,-2, 5".to_string()) };
    assert_eq!(p.size(), 1);
    assert_eq!(p.offset(), 2);
    assert_eq!(p.excluded_ids(), vec![4, -2]);
    let none = RiddleParams { page: None, page_size: Some(3), exclude_ids: None };
    assert_eq!(none.page_number(), 1);
    assert!(none.excluded_ids().is_empty());
}

#[test]
fn request_body_kind() {
    assert!(body_is_json("application/json"));
    assert!(body_is_json("application/json; charset=utf-8"));
    assert!(!body_is_json("text/plain"));
    assert!(!body_is_json("application/x-www-form-urlencoded"));
    assert!(!body_is_json(""));
}

#[test]
fn export_destination() {
    let ask = ExportParams { keyword: None, save_locally: Some(true) };
    let plain = ExportParams { keyword: None, save_locally: None };
    assert!(ask.saves_locally(""));
    assert!(plain.saves_locally("http://tauri.localhost"));
    assert!(!plain.saves_locally("http://192.168.1.2:9000"));
    assert!(!plain.saves_locally("http://localhost:9000"));
}

#[test]
fn activity_configuration() {
    let p = ActivityPayload {
        name: None,
        start_time: "2024-02-24 18:00:00".to_string(),
        end_time: "tomorrow".to_string(),
    };
    let (name, w) = p.resolve(77);
    assert_eq!(name, "元宵猜灯谜");
    assert_eq!(w.start, 1708797600);
    assert_eq!(w.end, 77);
    let named = ActivityPayload { name: Some("Lanterns".to_string()), start_time: String::new(), end_time: String::new() };
    let (name, w) = named.resolve(5);
    assert_eq!(name, "Lanterns");
    assert_eq!((w.start, w.end), (5, 5));
}

#[test]
fn guess_riddle_id_forms() {
    let g = |v| GuessPayload { riddle_id: v, answer: "a".to_string() };
    assert_eq!(g(RiddleIdValue::Integer(12)).riddle_id_number(), Some(12));
    assert_eq!(g(RiddleIdValue::Text("34".to_string())).riddle_id_number(), Some(34));
    assert_eq!(g(RiddleIdValue::Text("x".to_string())).riddle_id_number(), None);
    assert_eq!(g(RiddleIdValue::Other).riddle_id_number(), None);
}

#[test]
fn win_announcement_carries_winner_fields() {
    let u = User {
        id: 3,
        username: "Mei".to_string(),
        avatar: Some("/avatar/a.png".to_string()),
        user_code: None,
        token: None,
        register_time: None,
    };
    let e = riddle_solved_event(9, &u);
    assert_eq!(e.riddle_id, 9);
    assert_eq!(e.solver_name, "Mei");
    assert_eq!(e.solver_avatar.as_deref(), Some("/avatar/a.png"));
}

#[test]
fn search_keywords_match_literally() {
    assert_eq!(like_pattern(""), "%%");
    assert_eq!(like_pattern("li"), "%li%");
    assert_eq!(like_pattern("50%_a\\b"), "%50\\%\\_a\\\\b%");
}
