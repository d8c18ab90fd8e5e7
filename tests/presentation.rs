use lantern_riddle::assets::{admin_dist_path, asset_content_type, asset_path, strip_leading_text};
use lantern_riddle::display::{format_moment, get_time_range_display, read_stored_moment, time_range_filter};
use lantern_riddle::export::{export_csv, push_csv_row};
use lantern_riddle::models::GuessRecordWithInfo;

const EVE: i64 = 1708797600; // 2024-02-24 18:00:00

#[test]
fn moments_are_written_out() {
    assert_eq!(format_moment(0), "1970-01-01 00:00:00");
    assert_eq!(format_moment(EVE), "2024-02-24 18:00:00");
    assert_eq!(format_moment(EVE + 86399), "2024-02-25 17:59:59");
    assert_eq!(format_moment(EVE + 5 * 60 + 9), "2024-02-24 18:05:09");
    assert_eq!(format_moment(-1), "1969-12-31 23:59:59");
    assert_eq!(format_moment(-62135596800 - 86400 * 366), "0000-01-01 00:00:00");
    assert_eq!(format_moment(253402300800), "+10000-01-01 00:00:00");
    assert_eq!(format_moment(i64::MAX), "");
}

#[test]
fn time_range_on_one_day_and_across_days() {
    assert_eq!(get_time_range_display(EVE, EVE + 4 * 3600 + 30 * 60), "<p>2024/02/24</p><p>18:00~22:30</p>");
    assert_eq!(get_time_range_display(EVE, EVE + 7 * 3600 + 5 * 60), "<p>02/24 18:00~</p><p> 02/25 01:05</p>");
    assert_eq!(get_time_range_display(EVE, i64::MAX), "");
}

#[test]
fn stored_times_read_in_three_forms() {
    assert_eq!(read_stored_moment("2024-02-24T18:00:00"), Some(1708797600));
    assert_eq!(read_stored_moment("2024-02-24 18:00:00"), Some(1708797600));
    assert_eq!(read_stored_moment("2024-02-24T18:00:00.250"), Some(1708797600));
    assert_eq!(read_stored_moment("24/02/2024"), None);
    assert_eq!(
        time_range_filter("2024-02-24T18:00:00", "2024-02-24 22:30:00"),
        "<p>2024/02/24</p><p>18:00~22:30</p>"
    );
    assert_eq!(time_range_filter("", "2024-02-24 22:30:00"), "");
    assert_eq!(time_range_filter("soon", "2024-02-24 22:30:00"), "");
}

fn record(id: i64, name: &str, question: &str, answer: &str, time: Option<i64>) -> GuessRecordWithInfo {
    GuessRecordWithInfo {
        id,
        user_id: 1,
        user_name: Some(name.to_string()),
        riddle_id: 2,
        riddle_question: Some(question.to_string()),
        riddle_answer: Some(answer.to_string()),
        solve_time: time,
        is_solved: true,
    }
}

#[test]
fn csv_quotes_texts_and_formats_times() {
    let rows = vec![
        record(3, "Mei", "He said \"hi\"", "lantern", Some(1708797600)),
        record(-4, "Li", "q", "a", None),
    ];
    assert_eq!(
        export_csv(&rows),
        "\u{feff}记录ID,中奖用户,答对灯谜,谜底,中奖时间\n3,Mei,\"He said \"\"hi\"\"\",\"lantern\",2024-02-24 18:00:00\n-4,Li,\"q\",\"a\",\n"
    );
    assert_eq!(export_csv(&vec![]), "\u{feff}记录ID,中奖用户,答对灯谜,谜底,中奖时间\n");
    let mut line = String::from("x");
    let mut bare = record(i64::MIN, "", "", "", None);
    bare.user_name = None;
    bare.riddle_question = None;
    push_csv_row(&mut line, &bare);
    assert_eq!(line, "x-9223372036854775808,,\"\",\"\",\n");
}

#[test]
fn request_paths_name_bundled_files() {
    assert_eq!(asset_path("/"), "index.html");
    assert_eq!(asset_path(""), "index.html");
    assert_eq!(asset_path("/index.html"), "index.html");
    assert_eq!(asset_path("//css/site.css"), "css/site.css");
    assert_eq!(admin_dist_path("admin/admin/app.js"), Some("admin/dist/app.js".to_string()));
    assert_eq!(admin_dist_path("css/admin/app.js"), None);
    assert_eq!(strip_leading_text("ababc", "ab"), "c");
    assert_eq!(strip_leading_text("abc", ""), "abc");
    assert_eq!(asset_content_type("css/site.css"), "text/css");
    assert_eq!(asset_content_type("blob.nothing-known"), "application/octet-stream");
}
