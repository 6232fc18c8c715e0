use autodcr_bridge::text::{preview_head_tail, truncate_middle};

#[test]
fn truncate_middle_keeps_short_text() {
    assert_eq!(truncate_middle("hello", 5), "hello");
    assert_eq!(truncate_middle("", 0), "");
}

#[test]
fn truncate_middle_keeps_both_ends() {
    assert_eq!(truncate_middle("abcdefghij", 8), "ab...hij");
    assert_eq!(truncate_middle("abcdefghij", 3), "...");
    assert_eq!(truncate_middle("abcdefghij", 1), "...");
    assert_eq!(truncate_middle("ééééééé", 5), "é...é");
}

#[test]
fn preview_is_head_and_tail() {
    assert_eq!(preview_head_tail("0123456789abcdefghij", 2, 3), "01...hij");
    assert_eq!(preview_head_tail("short", 24, 24), "short");
}
