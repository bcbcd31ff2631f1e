use gpterm::layout::{recompute_scroll, rule_line, split_body_lines, total_height, wrapped_line_count};
use gpterm::turn::{DisplayMessage, MessageType};

fn msg(body: &str) -> DisplayMessage {
    DisplayMessage::from("who".to_string(), body.to_string(), MessageType::Answer)
}

#[test]
fn wrap_arithmetic_counts_base_and_overflow_rows() {
    // one raw line of 11 characters at width 5: 1 + floor(11 / 5) = 3
    assert_eq!(wrapped_line_count("hello world", 5), 3);
}

#[test]
fn wrap_counts_a_full_width_line_with_one_overflow_row() {
    // the deliberate off-by-one-tolerant heuristic: exactly `width`
    // characters still add one overflow row
    assert_eq!(wrapped_line_count("abcde", 5), 2);
}

#[test]
fn wrap_of_empty_body_is_zero() {
    assert_eq!(wrapped_line_count("", 5), 0);
}

#[test]
fn wrap_ignores_a_trailing_break() {
    assert_eq!(wrapped_line_count("a\n", 5), 1);
}

#[test]
fn wrap_treats_crlf_as_one_break() {
    // lines "ab" and "cd" at width 3: (1+0) + (1+0) = 2
    assert_eq!(wrapped_line_count("ab\r\ncd", 3), 2);
    // a trailing CRLF opens no empty raw line
    assert_eq!(wrapped_line_count("ab\r\n", 3), 1);
}

#[test]
fn wrap_counts_a_lone_carriage_return_as_a_character() {
    // "ab\r" is one raw line of three characters at width 3: 1 + 3/3 = 2
    assert_eq!(wrapped_line_count("ab\r", 3), 2);
}

#[test]
fn wrap_sums_over_embedded_breaks() {
    // lines "abc", "", "defgh" at width 2: (1+1) + (1+0) + (1+2) = 6
    assert_eq!(wrapped_line_count("abc\n\ndefgh", 2), 6);
}

#[test]
fn total_height_adds_two_rows_per_message() {
    let msgs = vec![msg("hello world"), msg("hi")];
    // (3 + 2) + (1 + 2)
    assert_eq!(total_height(&msgs, 5), 8);
}

#[test]
fn scroll_clamp_bounds_the_requested_offset() {
    let msgs = vec![msg("hello world"), msg("hi"), msg("a\nb\nc")];
    // heights: 5 + 3 + 5 = 13; viewport 4 rows -> max_offset 9
    for requested in [0usize, 1, 9, 10, 10_000] {
        let (max_offset, clamped) = recompute_scroll(&msgs, 5, 4, requested);
        assert_eq!(max_offset, 9);
        assert!(clamped <= max_offset);
        assert_eq!(clamped, requested.min(9));
    }
}

#[test]
fn scroll_clamp_is_zero_when_content_fits() {
    let msgs = vec![msg("hi")];
    let (max_offset, clamped) = recompute_scroll(&msgs, 5, 40, 7);
    assert_eq!(max_offset, 0);
    assert_eq!(clamped, 0);
}

#[test]
fn rule_line_is_one_dash_per_column() {
    assert_eq!(rule_line(4), "────");
    assert_eq!(rule_line(0), "");
}

#[test]
fn split_body_lines_splits_on_breaks() {
    assert_eq!(split_body_lines("a\nb\n"), vec!["a", "b", ""]);
    assert_eq!(split_body_lines(""), vec![""]);
    assert_eq!(split_body_lines("one"), vec!["one"]);
}
