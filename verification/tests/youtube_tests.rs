use ytcli::youtube::{
    build_record, first_result, search, search_id, search_token, strip_quotes, watch_url,
    RawEntry, SearchError, YouTubeSearchEntry,
};

fn entry(id: &str, title: &str) -> YouTubeSearchEntry {
    YouTubeSearchEntry {
        id: id.to_string(),
        uploader: "up".to_string(),
        description: "d".to_string(),
        title: title.to_string(),
        likes: 0,
        dislikes: 0,
    }
}

#[test]
fn search_returns_all_entries_in_order() {
    let json = "{\"entries\":[\
        {\"id\":\"a\",\"title\":\"T1\",\"uploader\":\"U1\",\"like_count\":1,\"dislike_count\":2},\
        {\"id\":\"b\",\"title\":\"T2\",\"uploader\":\"U2\",\"like_count\":3,\"dislike_count\":4},\
        {\"id\":\"c\",\"title\":\"T3\",\"uploader\":\"U3\",\"like_count\":5,\"dislike_count\":6}]}";
    let results = search(json).unwrap();
    assert_eq!(results.len(), 3);
    assert_eq!(results[0].id, "a");
    assert_eq!(results[0].title, "T1");
    assert_eq!(results[0].uploader, "U1");
    assert_eq!(results[0].likes, 1);
    assert_eq!(results[0].dislikes, 2);
    assert_eq!(results[1].id, "b");
    assert_eq!(results[1].title, "T2");
    assert_eq!(results[2].id, "c");
    assert_eq!(results[2].likes, 5);
}

#[test]
fn search_id_on_zero_entries_is_empty_result_error() {
    let r = search_id("{\"entries\":[]}");
    assert!(matches!(r, Err(SearchError::EmptyResultError)));
}

#[test]
fn string_fields_are_quote_stripped() {
    assert_eq!(strip_quotes("\"Title\"".to_string()), "Title");
    assert_eq!(strip_quotes("no quotes".to_string()), "no quotes");
    assert_eq!(strip_quotes("\"\"".to_string()), "");
    let json = "{\"entries\":[{\"id\":\"x\",\"title\":\"Title\",\"uploader\":\"U\",\
        \"like_count\":1,\"dislike_count\":1}]}";
    let results = search(json).unwrap();
    assert_eq!(results[0].title, "Title");
    assert_eq!(results[0].id, "x");
}

#[test]
fn missing_description_falls_back_to_sentinel() {
    let json = "{\"entries\":[{\"id\":\"x\",\"title\":\"T\",\"uploader\":\"U\",\
        \"like_count\":1,\"dislike_count\":1}]}";
    let results = search(json).unwrap();
    assert_eq!(results[0].description, "No description");
}

#[test]
fn present_description_is_kept() {
    let json = "{\"entries\":[{\"id\":\"x\",\"title\":\"T\",\"uploader\":\"U\",\
        \"description\":\"hello there\",\"like_count\":1,\"dislike_count\":1}]}";
    let results = search(json).unwrap();
    assert_eq!(results[0].description, "hello there");
}

#[test]
fn non_numeric_like_count_is_field_error() {
    let json = "{\"entries\":[{\"id\":\"x\",\"title\":\"T\",\"uploader\":\"U\",\
        \"like_count\":\"abc\",\"dislike_count\":1}]}";
    assert!(matches!(search(json), Err(SearchError::FieldError)));
}

#[test]
fn non_numeric_dislike_count_is_field_error() {
    let json = "{\"entries\":[{\"id\":\"x\",\"title\":\"T\",\"uploader\":\"U\",\
        \"like_count\":1,\"dislike_count\":\"zzz\"}]}";
    assert!(matches!(search(json), Err(SearchError::FieldError)));
}

#[test]
fn missing_like_count_is_field_error() {
    let json = "{\"entries\":[{\"id\":\"x\",\"title\":\"T\",\"uploader\":\"U\",\
        \"dislike_count\":1}]}";
    assert!(matches!(search(json), Err(SearchError::FieldError)));
}

#[test]
fn missing_uploader_is_field_error() {
    let json = "{\"entries\":[{\"id\":\"x\",\"title\":\"T\",\
        \"like_count\":1,\"dislike_count\":1}]}";
    assert!(matches!(search(json), Err(SearchError::FieldError)));
}

#[test]
fn invalid_json_is_parse_error() {
    assert!(matches!(search("not json at all"), Err(SearchError::ParseError)));
    assert!(matches!(search(""), Err(SearchError::ParseError)));
}

#[test]
fn missing_entries_array_is_shape_error() {
    assert!(matches!(search("{\"foo\":1}"), Err(SearchError::ShapeError)));
    assert!(matches!(search("{\"entries\":5}"), Err(SearchError::ShapeError)));
    assert!(matches!(search("[1,2,3]"), Err(SearchError::ShapeError)));
}

#[test]
fn watch_url_is_exact() {
    assert_eq!(watch_url("abc123"), "https://youtube.com/watch?v=abc123");
}

#[test]
fn watch_url_strips_quotes_from_id() {
    assert_eq!(watch_url("\"abc\""), "https://youtube.com/watch?v=abc");
}

#[test]
fn search_token_embeds_limit_and_query() {
    assert_eq!(search_token("rust tutorial", 10), "ytsearch10:rust tutorial");
    assert_eq!(search_token("x", 1), "ytsearch1:x");
    assert_eq!(search_token("q", -3), "ytsearch-3:q");
}

#[test]
fn first_result_returns_the_head() {
    let v = vec![entry("one", "t1"), entry("two", "t2")];
    let r = first_result(v).unwrap();
    assert_eq!(r.id, "one");
}

#[test]
fn first_result_on_empty_is_empty_result_error() {
    assert!(matches!(first_result(Vec::new()), Err(SearchError::EmptyResultError)));
}

#[test]
fn build_record_reads_serialized_fields() {
    let raw = RawEntry {
        id: Some("\"x1\"".to_string()),
        uploader: Some("\"U1\"".to_string()),
        description: None,
        title: Some("\"T1\"".to_string()),
        likes: Some("\"5\"".to_string()),
        dislikes: Some("1".to_string()),
    };
    let rec = build_record(&raw).unwrap();
    assert_eq!(rec.id, "x1");
    assert_eq!(rec.uploader, "U1");
    assert_eq!(rec.title, "T1");
    assert_eq!(rec.description, "No description");
    assert_eq!(rec.likes, 5);
    assert_eq!(rec.dislikes, 1);
}

#[test]
fn build_record_without_id_is_field_error() {
    let raw = RawEntry {
        id: None,
        uploader: Some("U".to_string()),
        description: None,
        title: Some("T".to_string()),
        likes: Some("1".to_string()),
        dislikes: Some("1".to_string()),
    };
    assert!(matches!(build_record(&raw), Err(SearchError::FieldError)));
}

#[test]
fn scenario_single_entry_with_string_counters() {
    let json = "{\"entries\":[{\"id\":\"x1\",\"title\":\"T1\",\"uploader\":\"U1\",\
        \"like_count\":\"5\",\"dislike_count\":\"1\"}]}";
    let results = search(json).unwrap();
    assert_eq!(results.len(), 1);
    assert_eq!(results[0].id, "x1");
    assert_eq!(results[0].title, "T1");
    assert_eq!(results[0].uploader, "U1");
    assert_eq!(results[0].likes, 5);
    assert_eq!(results[0].dislikes, 1);
    assert_eq!(results[0].description, "No description");
    let one = search_id(json).unwrap();
    assert_eq!(one.id, "x1");
}
