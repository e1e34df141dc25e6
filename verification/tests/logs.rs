use bctop::logs::{first_match_after, LogBuffer};

fn lines(texts: &[&str]) -> Vec<String> {
    texts.iter().map(|t| t.to_string()).collect()
}

fn buffer(texts: &[&str]) -> LogBuffer {
    let mut b = LogBuffer::new();
    b.append(lines(texts));
    b
}

fn with_needle(texts: &[&str], needle: &str) -> LogBuffer {
    let mut b = buffer(texts);
    b.search_next();
    for c in needle.chars() {
        b.type_char(c);
    }
    b
}

#[test]
fn a_new_buffer_is_empty_and_follows_the_tail() {
    let b = LogBuffer::new();
    assert!(b.lines().is_empty());
    assert_eq!(b.position(), 0);
    assert_eq!(b.search(), &None);
    assert_eq!(b.watermark(), 0);
}

#[test]
fn appending_at_the_tail_keeps_following_the_tail() {
    let mut b = buffer(&["a", "b"]);
    assert_eq!(b.position(), 0);
    b.append(lines(&["c", "d", "e"]));
    assert_eq!(b.position(), 0);
    assert_eq!(b.lines(), &lines(&["a", "b", "c", "d", "e"]));
}

#[test]
fn appending_while_scrolled_up_moves_the_position_by_the_number_of_lines() {
    let mut b = buffer(&["a", "b", "c"]);
    b.scroll_up();
    b.scroll_up();
    assert_eq!(b.position(), 2);
    b.append(lines(&["d", "e", "f"]));
    assert_eq!(b.position(), 5);
    assert_eq!(b.lines().len(), 6);
    b.append(Vec::new());
    assert_eq!(b.position(), 5);
    b.append(lines(&["g"]));
    assert_eq!(b.position(), 6);
}

#[test]
fn scroll_up_stops_at_the_oldest_line() {
    let mut b = buffer(&["a", "b", "c"]);
    b.scroll_up();
    assert_eq!(b.position(), 1);
    b.scroll_up();
    assert_eq!(b.position(), 2);
    b.scroll_up();
    assert_eq!(b.position(), 2);
}

#[test]
fn scroll_down_stops_at_the_newest_line() {
    let mut b = buffer(&["a", "b", "c"]);
    b.scroll_up();
    b.scroll_up();
    b.scroll_down();
    assert_eq!(b.position(), 1);
    b.scroll_down();
    assert_eq!(b.position(), 0);
    b.scroll_down();
    assert_eq!(b.position(), 0);
}

#[test]
fn scrolling_an_empty_buffer_does_nothing() {
    let mut b = LogBuffer::new();
    b.scroll_up();
    assert_eq!(b.position(), 0);
    b.scroll_down();
    assert_eq!(b.position(), 0);
    let mut one = buffer(&["a"]);
    one.scroll_up();
    assert_eq!(one.position(), 0);
}

#[test]
fn the_first_search_opens_an_empty_needle() {
    let mut b = buffer(&["a", "b"]);
    b.search_next();
    assert_eq!(b.search(), &Some(String::new()));
    assert_eq!(b.position(), 0);
}

#[test]
fn typing_and_erasing_change_the_needle() {
    let mut b = buffer(&["a"]);
    b.type_char('x');
    assert_eq!(b.search(), &None);
    b.erase_char();
    assert_eq!(b.search(), &None);
    b.search_next();
    b.type_char('e');
    b.type_char('r');
    assert_eq!(b.search(), &Some("er".to_string()));
    b.erase_char();
    assert_eq!(b.search(), &Some("e".to_string()));
    b.erase_char();
    assert_eq!(b.search(), &Some(String::new()));
    b.erase_char();
    assert_eq!(b.search(), &Some(String::new()));
    b.cancel_search();
    assert_eq!(b.search(), &None);
}

#[test]
fn search_finds_the_next_line_whatever_the_letter_case() {
    let mut b = with_needle(&["ok", "warn", "ERRor", "ok"], "err");
    assert_eq!(b.position(), 0);
    b.search_next();
    assert_eq!(b.position(), 1);
    b.search_next();
    assert_eq!(b.position(), 1);
    b.search_next();
    assert_eq!(b.position(), 1);
}

#[test]
fn search_with_an_upper_case_needle() {
    let mut b = with_needle(&["error one", "fine", "Error two", "fine"], "ERROR");
    b.search_next();
    assert_eq!(b.position(), 1);
    b.search_next();
    assert_eq!(b.position(), 3);
    b.search_next();
    assert_eq!(b.position(), 3);
}

#[test]
fn search_does_not_look_at_the_line_at_the_position() {
    let mut b = with_needle(&["x", "err", "x", "err"], "err");
    b.search_next();
    assert_eq!(b.position(), 2);
    b.search_next();
    assert_eq!(b.position(), 2);
}

#[test]
fn search_without_a_match_leaves_the_position() {
    let mut b = with_needle(&["a", "b", "c"], "zzz");
    b.scroll_up();
    b.search_next();
    assert_eq!(b.position(), 1);
}

#[test]
fn search_in_an_empty_buffer_does_nothing() {
    let mut b = with_needle(&[], "a");
    b.search_next();
    assert_eq!(b.position(), 0);
    assert_eq!(b.search(), &Some("a".to_string()));
}

#[test]
fn an_empty_needle_matches_every_line() {
    let mut b = with_needle(&["a", "b", "c"], "");
    b.search_next();
    assert_eq!(b.position(), 1);
    b.search_next();
    assert_eq!(b.position(), 2);
    b.search_next();
    assert_eq!(b.position(), 2);
}

#[test]
fn first_match_after_counts_from_the_newest_line() {
    let l = lines(&["needle", "b", "needle", "d"]);
    assert_eq!(first_match_after(&l, "needle", 0), Some(1));
    assert_eq!(first_match_after(&l, "needle", 1), Some(3));
    assert_eq!(first_match_after(&l, "needle", 2), Some(3));
    assert_eq!(first_match_after(&l, "needle", 3), None);
    assert_eq!(first_match_after(&l, "needle", 4), None);
    assert_eq!(first_match_after(&l, "needle", usize::MAX), None);
    assert_eq!(first_match_after(&l, "Needle", 0), None);
    assert_eq!(first_match_after(&l, "eed", 0), Some(1));
    assert_eq!(first_match_after(&l, "d", 0), Some(1));
    assert_eq!(first_match_after(&Vec::new(), "", 0), None);
}

#[test]
fn push_line_leaves_the_position() {
    let mut b = buffer(&["a", "b"]);
    b.scroll_up();
    b.push_line("c".to_string());
    assert_eq!(b.position(), 1);
    assert_eq!(b.lines(), &lines(&["a", "b", "c"]));
}

#[test]
fn echo_is_written_behind_the_newest_line() {
    let mut b = buffer(&["a", "$ "]);
    b.echo("ls\n");
    assert_eq!(b.lines(), &lines(&["a", "$ ls\n"]));
    let mut empty = LogBuffer::new();
    empty.echo("ls\n");
    assert!(empty.lines().is_empty());
}

#[test]
fn clear_drops_the_lines_and_follows_the_tail() {
    let mut b = with_needle(&["a", "b", "c"], "x");
    b.scroll_up();
    b.advance_watermark(7);
    b.clear();
    assert!(b.lines().is_empty());
    assert_eq!(b.position(), 0);
    assert_eq!(b.search(), &Some("x".to_string()));
    assert_eq!(b.watermark(), 7);
}

#[test]
fn the_watermark_never_moves_back() {
    let mut b = LogBuffer::new();
    b.advance_watermark(100);
    assert_eq!(b.watermark(), 100);
    b.advance_watermark(50);
    assert_eq!(b.watermark(), 100);
    b.advance_watermark(100);
    assert_eq!(b.watermark(), 100);
    b.advance_watermark(101);
    assert_eq!(b.watermark(), 101);
    b.advance_watermark(-5);
    assert_eq!(b.watermark(), 101);
    b.rewind();
    assert_eq!(b.watermark(), 0);
    b.advance_watermark(-5);
    assert_eq!(b.watermark(), 0);
}

#[test]
fn mark_fetched_reads_the_clock() {
    let mut b = LogBuffer::new();
    b.mark_fetched();
    let first = b.watermark();
    // The clock of the machine stands after the year 2020.
    assert!(first > 1_577_836_800);
    b.mark_fetched();
    assert!(b.watermark() >= first);
}
