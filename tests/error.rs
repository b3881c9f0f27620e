use clox::error::find_location_in_source;

#[test]
fn locates_line_and_column() {
    assert_eq!(find_location_in_source("ab\ncd", 2, 4), ("cd", 1));
    assert_eq!(find_location_in_source("ab\ncd", 1, 1), ("ab", 1));
    assert_eq!(find_location_in_source("x = 1;\nprint `;", 2, 13), ("print `;", 6));
}

#[test]
fn missing_line_gives_empty_text() {
    assert_eq!(find_location_in_source("ab", 0, 0), ("", 0));
    assert_eq!(find_location_in_source("ab", 3, 5), ("", 0));
}

#[test]
fn position_before_the_line_gives_column_zero() {
    assert_eq!(find_location_in_source("ab\ncd", 2, 1), ("cd", 0));
}

#[test]
fn columns_count_bytes() {
    assert_eq!(find_location_in_source("é\nab", 2, 4), ("ab", 1));
    assert_eq!(find_location_in_source("aé`", 1, 3), ("aé`", 3));
}

#[test]
fn crlf_line_ends_are_not_part_of_the_line() {
    assert_eq!(find_location_in_source("ab\r\ncd", 1, 1), ("ab", 1));
    assert_eq!(find_location_in_source("ab\r\ncd", 2, 5), ("cd", 1));
    assert_eq!(find_location_in_source("a\rb", 1, 2), ("a\rb", 2));
}

#[test]
fn no_line_after_a_final_newline() {
    assert_eq!(find_location_in_source("ab\n", 2, 5), ("", 0));
    assert_eq!(find_location_in_source("", 1, 0), ("", 0));
    assert_eq!(find_location_in_source("ab\n\ncd", 2, 3), ("", 0));
    assert_eq!(find_location_in_source("abc", 5, 0), ("", 0));
}
