use ytcli::present::{flatten_newlines, format_result_line, max_title_width, select_index};
use ytcli::youtube::{SearchError, YouTubeSearchEntry};

fn titled(title: &str) -> YouTubeSearchEntry {
    YouTubeSearchEntry {
        id: "i".to_string(),
        uploader: "u".to_string(),
        description: "d".to_string(),
        title: title.to_string(),
        likes: 0,
        dislikes: 0,
    }
}

#[test]
fn selection_in_range_is_accepted() {
    assert_eq!(select_index("2\n", 3), Ok(2));
    assert_eq!(select_index("0\n", 3), Ok(0));
    assert_eq!(select_index("1", 3), Ok(1));
    assert_eq!(select_index("+2\n", 3), Ok(2));
}

#[test]
fn selection_out_of_range_is_input_error() {
    assert_eq!(select_index("5\n", 3), Err(SearchError::InputError));
    assert_eq!(select_index("3\n", 3), Err(SearchError::InputError));
}

#[test]
fn non_numeric_selection_is_input_error() {
    assert_eq!(select_index("abc\n", 3), Err(SearchError::InputError));
    assert_eq!(select_index("\n", 3), Err(SearchError::InputError));
    assert_eq!(select_index("", 3), Err(SearchError::InputError));
    assert_eq!(select_index("-1\n", 3), Err(SearchError::InputError));
    assert_eq!(select_index("1 \n", 3), Err(SearchError::InputError));
}

#[test]
fn widest_title_sets_the_width() {
    let batch = vec![titled("ab"), titled("abcd"), titled("a")];
    assert_eq!(max_title_width(&batch), 4);
    assert_eq!(max_title_width(&Vec::new()), 0);
}

#[test]
fn listing_line_pads_the_title() {
    assert_eq!(format_result_line(1, "ab", "up", 4), "1. ab   up");
    assert_eq!(format_result_line(0, "abc", "u", 2), "0. abc u");
    assert_eq!(format_result_line(12, "t", "u", 1), "12. t u");
}

#[test]
fn newlines_flatten_to_dots() {
    assert_eq!(flatten_newlines("a\nb\nc"), "a.b.c");
    assert_eq!(flatten_newlines(""), "");
    assert_eq!(flatten_newlines("plain"), "plain");
}
