use webtail::client::configuration::LogConfiguration;
use webtail::client::process::{
    match_file_name, match_outcome, process_line, reassemble, Fragment,
};
use webtail::message::Message;
use webtail::Applicatiton;

fn row(text: &str, replace_last_row: bool) -> Fragment {
    Fragment { row: text.to_string(), replace_last_row }
}

fn feed(lines: &[&str]) -> (Vec<Vec<Fragment>>, String, bool) {
    let mut last_line = String::new();
    let mut end_by_new_line = true;
    let mut rows = Vec::new();
    for line in lines {
        rows.push(reassemble(line, &mut last_line, &mut end_by_new_line));
    }
    (rows, last_line, end_by_new_line)
}

fn config() -> LogConfiguration {
    LogConfiguration::new(
        Applicatiton::SinglePod("shop".to_string()),
        "/var/log".to_string(),
        "shop.*".to_string(),
        "relay".to_string(),
        8080,
        "ws".to_string(),
        16,
    )
}

#[test]
fn a_whole_line_is_one_new_row() {
    let (rows, last_line, closed) = feed(&["hello\n"]);
    assert_eq!(rows, vec![vec![row("hello", false)]]);
    assert_eq!(last_line, "hello");
    assert!(closed);
}

#[test]
fn whole_lines_follow_each_other() {
    let (rows, _, closed) = feed(&["one\n", "two\n"]);
    assert_eq!(rows, vec![vec![row("one", false)], vec![row("two", false)]]);
    assert!(closed);
}

#[test]
fn a_partial_line_is_kept_and_not_sent() {
    let (rows, last_line, closed) = feed(&["foo"]);
    assert_eq!(rows, vec![Vec::<Fragment>::new()]);
    assert_eq!(last_line, "foo");
    assert!(!closed);
}

#[test]
fn a_line_in_two_reads_is_exactly_one_replacing_row() {
    let (rows, last_line, closed) = feed(&["foo", "bar\n"]);
    assert_eq!(rows, vec![vec![], vec![row("foobar", true)]]);
    assert_eq!(last_line, "foobar");
    assert!(closed);
}

#[test]
fn a_line_in_three_reads_is_sent_once() {
    let (rows, last_line, closed) = feed(&["a", "b", "c\n", "d\n"]);
    assert_eq!(
        rows,
        vec![vec![], vec![], vec![row("abc", true)], vec![row("d", false)]]
    );
    assert_eq!(last_line, "d");
    assert!(closed);
}

#[test]
fn a_line_feed_alone_closes_the_open_line() {
    let (rows, last_line, closed) = feed(&["foo", "\n", "bar\n"]);
    assert_eq!(
        rows,
        vec![vec![], vec![row("foo", true)], vec![row("bar", false)]]
    );
    assert_eq!(last_line, "bar");
    assert!(closed);
}

#[test]
fn a_line_feed_alone_after_a_closed_line_gives_no_row() {
    let (rows, last_line, closed) = feed(&["one\n", "\n", "\n", "two\n"]);
    assert_eq!(
        rows,
        vec![vec![row("one", false)], vec![], vec![], vec![row("two", false)]]
    );
    assert_eq!(last_line, "two");
    assert!(closed);
}

#[test]
fn nothing_read_gives_nothing() {
    let (rows, last_line, closed) = feed(&[""]);
    assert_eq!(rows, vec![Vec::<Fragment>::new()]);
    assert_eq!(last_line, "");
    assert!(closed);
    let (rows, last_line, closed) = feed(&["foo", ""]);
    assert_eq!(rows, vec![Vec::<Fragment>::new(), vec![]]);
    assert_eq!(last_line, "foo");
    assert!(!closed);
}

#[test]
fn a_carriage_return_stays_in_the_row() {
    let (rows, _, closed) = feed(&["dos\r\n"]);
    assert_eq!(rows, vec![vec![row("dos\r", false)]]);
    assert!(closed);
}

#[test]
fn several_lines_in_one_read_are_several_rows() {
    let (rows, last_line, closed) = feed(&["one\ntwo\nthree"]);
    assert_eq!(rows, vec![vec![row("one", false), row("two", false)]]);
    assert_eq!(last_line, "three");
    assert!(!closed);
    let (rows, last_line, closed) = feed(&["on", "e\ntwo\n\nthr", "ee\n"]);
    assert_eq!(
        rows,
        vec![
            vec![],
            vec![row("one", true), row("two", false)],
            vec![row("three", true)],
        ]
    );
    assert_eq!(last_line, "three");
    assert!(closed);
}

#[test]
fn every_character_but_the_line_feed_is_text() {
    let (rows, _, closed) = feed(&["a\u{1F47B}b\u{1F6F8}c\n"]);
    assert_eq!(rows, vec![vec![row("a\u{1F47B}b\u{1F6F8}c", false)]]);
    assert!(closed);
    let (rows, _, closed) = feed(&["\u{1F6F8}\n", "\u{1F47B}\u{1F6F8}\u{1F47B}\n"]);
    assert_eq!(
        rows,
        vec![
            vec![row("\u{1F6F8}", false)],
            vec![row("\u{1F47B}\u{1F6F8}\u{1F47B}", false)],
        ]
    );
    assert!(closed);
    let (rows, last_line, closed) = feed(&["x", "\u{1F6F8}", "y\n"]);
    assert_eq!(rows, vec![vec![], vec![], vec![row("x\u{1F6F8}y", true)]]);
    assert_eq!(last_line, "x\u{1F6F8}y");
    assert!(closed);
}

#[test]
fn an_open_line_is_completed_whatever_text_was_kept() {
    let mut last_line = "kept".to_string();
    let mut end_by_new_line = false;
    let rows = reassemble("\n", &mut last_line, &mut end_by_new_line);
    assert_eq!(rows, vec![row("kept", true)]);
    assert_eq!(last_line, "kept");
    assert!(end_by_new_line);
    let mut last_line = "stale".to_string();
    let mut end_by_new_line = true;
    let rows = reassemble("new", &mut last_line, &mut end_by_new_line);
    assert_eq!(rows, vec![]);
    assert_eq!(last_line, "new");
    assert!(!end_by_new_line);
}

#[test]
fn no_empty_row_is_sent() {
    let mut last_line = String::new();
    let mut end_by_new_line = false;
    let rows = reassemble("\n", &mut last_line, &mut end_by_new_line);
    assert_eq!(rows, vec![]);
    assert_eq!(last_line, "");
    assert!(end_by_new_line);
    let mut last_line = "sent before".to_string();
    let mut end_by_new_line = true;
    let rows = reassemble("\n", &mut last_line, &mut end_by_new_line);
    assert_eq!(rows, vec![]);
    assert_eq!(last_line, "sent before");
    assert!(end_by_new_line);
}

#[test]
fn a_line_closed_after_an_open_one_leaves_its_text_behind() {
    let mut last_line = "p".to_string();
    let mut end_by_new_line = false;
    let rows = reassemble("s\n", &mut last_line, &mut end_by_new_line);
    assert_eq!(rows, vec![row("ps", true)]);
    assert_eq!(last_line, "ps");
    assert!(end_by_new_line);
}

#[test]
fn records_carry_the_configured_identity() {
    let mut last_line = String::new();
    let mut end_by_new_line = true;
    let first = process_line("foo".to_string(), &mut last_line, &mut end_by_new_line, &config());
    let second = process_line("bar\n".to_string(), &mut last_line, &mut end_by_new_line, &config());
    let third = process_line("baz\n".to_string(), &mut last_line, &mut end_by_new_line, &config());
    assert_eq!(first.len(), 0);
    assert_eq!(second.len(), 1);
    assert_eq!(third.len(), 1);
    let Message::Data(record) = &second[0] else {
        panic!("a record was expected");
    };
    assert_eq!(record.message_type, "Data");
    assert_eq!(record.row(), "foobar");
    assert!(record.replace_last_row);
    assert_eq!(record.application, Applicatiton::SinglePod("shop".to_string()));
    let Message::Data(record) = &third[0] else {
        panic!("a record was expected");
    };
    assert_eq!(record.row(), "baz");
    assert!(!record.replace_last_row);
    assert_eq!(last_line, "baz");
    assert!(end_by_new_line);
}

#[test]
fn a_pattern_is_searched_anywhere_in_the_name() {
    assert!(match_file_name("shop-2024.log", r"shop-\d+\.log"));
    assert!(match_file_name("old-shop-2024.log.gz", r"shop-\d+\.log"));
    assert!(!match_file_name("shop.log", r"shop-\d+\.log"));
    assert!(match_file_name("shop.log", r"^shop\.log$"));
    assert!(!match_file_name("shop.log.1", r"^shop\.log$"));
    assert!(match_file_name("anything", ""));
}

#[test]
fn a_pattern_that_is_refused_matches_nothing() {
    assert!(!match_file_name("shop(.log", "shop("));
    assert!(!match_file_name("[", "["));
    assert!(!match_file_name("", "*"));
}

#[test]
fn only_a_found_pattern_counts_as_a_match() {
    assert!(match_outcome(Some(true)));
    assert!(!match_outcome(Some(false)));
    assert!(!match_outcome(None));
}
