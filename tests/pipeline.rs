use interesting_hacker::{
    collect_details, filter_matching, finish_run, json_or_null, parse_story, parse_story_ids, select_ids,
    KeywordMatcher, RunError, Story,
};

fn matcher(ps: &[&str]) -> KeywordMatcher {
    let v: Vec<String> = ps.iter().map(|s| s.to_string()).collect();
    KeywordMatcher::compile(&v).ok().unwrap()
}

fn story(id: u64, title: Option<&str>) -> Story {
    Story { id, title: title.map(|t| t.to_string()), url: None, kids: None }
}

fn ids_of(v: &[Story]) -> Vec<u64> {
    v.iter().map(|s| s.id).collect()
}

#[test]
fn listing_decodes_to_ids() {
    assert_eq!(parse_story_ids(b"[1,2,3]").ok().unwrap(), vec![1, 2, 3]);
    assert_eq!(parse_story_ids(b"[]").ok().unwrap(), Vec::<u64>::new());
}

#[test]
fn malformed_listing_is_an_error() {
    assert!(matches!(parse_story_ids(b"{\"a\":1}"), Err(RunError::Malformed(_))));
    assert!(matches!(parse_story_ids(b"not json"), Err(RunError::Malformed(_))));
}

#[test]
fn story_fields_decode() {
    let s = parse_story(1, br#"{"title":"Rust is great","kids":[10,11]}"#).ok().unwrap();
    assert_eq!(s.id, 1);
    assert_eq!(s.title.as_deref(), Some("Rust is great"));
    assert_eq!(s.url, None);
    assert_eq!(s.kids, Some(vec![10, 11]));
    assert_eq!(s.comment_count(), 2);
    assert_eq!(s.title_text(), "Rust is great");
}

#[test]
fn story_without_kids_has_no_comments() {
    let s = parse_story(3, br#"{"title":"Linux kernel news","url":"http://x"}"#).ok().unwrap();
    assert_eq!(s.kids, None);
    assert_eq!(s.comment_count(), 0);
    assert_eq!(s.url.as_deref(), Some("http://x"));
}

#[test]
fn null_detail_is_an_untitled_story() {
    let s = parse_story(9, b"null").ok().unwrap();
    assert_eq!(s.title, None);
    assert_eq!(s.title_text(), "");
    assert_eq!(s.comment_count(), 0);
}

#[test]
fn non_string_title_is_absent() {
    let s = parse_story(4, br#"{"title":5}"#).ok().unwrap();
    assert_eq!(s.title, None);
}

#[test]
fn non_integer_comment_ids_count_as_absent() {
    let s = parse_story(5, br#"{"title":"t","kids":[1,"a"]}"#).ok().unwrap();
    assert_eq!(s.kids, None);
    assert_eq!(s.comment_count(), 0);
    assert_eq!(s.title.as_deref(), Some("t"));
}

#[test]
fn non_array_kids_are_absent() {
    let s = parse_story(6, br#"{"kids":7}"#).ok().unwrap();
    assert_eq!(s.kids, None);
}

#[test]
fn body_that_is_not_json_is_malformed() {
    assert!(matches!(parse_story(5, b"{"), Err(RunError::Malformed(_))));
}

#[test]
fn fields_shown_as_json() {
    assert_eq!(json_or_null(&Some("Rust is great".to_string())), "\"Rust is great\"");
    assert_eq!(json_or_null(&Some("a\"b".to_string())), "\"a\\\"b\"");
    assert_eq!(json_or_null(&None), "null");
}

#[test]
fn cutoff_bounds_detail_fetches() {
    let ids: Vec<u64> = (1..=500).collect();
    let kept = select_ids(ids, 300);
    assert_eq!(kept.len(), 300);
    assert_eq!(kept[0], 1);
    assert_eq!(kept[299], 300);
}

#[test]
fn cutoff_keeps_short_listing() {
    assert_eq!(select_ids(vec![1, 2, 3], 300), vec![1, 2, 3]);
    assert_eq!(select_ids(vec![1, 2, 3], 0), Vec::<u64>::new());
}

#[test]
fn filter_keeps_matches_in_order() {
    let m = matcher(&["rust", "linux"]);
    let stories = vec![
        story(1, Some("Rust is great")),
        story(2, Some("Cooking tips")),
        story(3, Some("Linux kernel news")),
        story(4, None),
    ];
    assert_eq!(ids_of(&filter_matching(stories, &m)), vec![1, 3]);
}

#[test]
fn untitled_story_needs_empty_match() {
    let plain = matcher(&["rust"]);
    assert!(filter_matching(vec![story(1, None)], &plain).is_empty());
    let empty = matcher(&["^$"]);
    assert_eq!(ids_of(&filter_matching(vec![story(1, None)], &empty)), vec![1]);
}

#[test]
fn wildcard_keeps_every_titled_story() {
    let m = matcher(&["golang", "*"]);
    let stories = vec![story(1, Some("a")), story(2, Some("Cooking tips"))];
    assert_eq!(ids_of(&filter_matching(stories, &m)), vec![1, 2]);
}

#[test]
fn all_details_collected() {
    let r = collect_details(vec![Ok(story(1, Some("a"))), Ok(story(2, None))]);
    assert_eq!(ids_of(&r.ok().unwrap()), vec![1, 2]);
}

#[test]
fn first_failure_is_reported() {
    let r = collect_details(vec![
        Ok(story(1, Some("a"))),
        Err(RunError::Fetch("timed out".to_string())),
        Err(RunError::Malformed("bad".to_string())),
    ]);
    match r {
        Err(RunError::Fetch(msg)) => assert_eq!(msg, "timed out"),
        _ => panic!("expected the first failure"),
    }
}

#[test]
fn end_to_end_keyword_scenario() {
    let ids = select_ids(parse_story_ids(b"[1,2,3]").ok().unwrap(), 300);
    let bodies: Vec<&[u8]> = vec![
        br#"{"title":"Rust is great","kids":[10,11]}"#,
        br#"{"title":"Cooking tips"}"#,
        br#"{"title":"Linux kernel news","url":"http://x"}"#,
    ];
    let results: Vec<Result<Story, RunError>> =
        ids.iter().zip(bodies).map(|(id, b)| parse_story(*id, b)).collect();
    let out = finish_run(results, &matcher(&["rust", "linux"])).ok().unwrap();
    assert_eq!(ids_of(&out), vec![1, 3]);
    assert_eq!(out[0].comment_count(), 2);
    assert_eq!(out[1].comment_count(), 0);
    assert_eq!(out[1].url.as_deref(), Some("http://x"));
}

#[test]
fn one_failed_fetch_aborts_the_run() {
    let results = vec![
        Ok(story(1, Some("Rust is great"))),
        Err(RunError::Fetch("connection reset".to_string())),
        Ok(story(3, Some("Linux kernel news"))),
    ];
    let r = finish_run(results, &matcher(&["*"]));
    assert!(matches!(r, Err(RunError::Fetch(_))));
}

#[test]
fn same_inputs_same_matches_in_any_order() {
    let m = matcher(&["rust", "linux"]);
    let a = vec![story(1, Some("Rust")), story(2, Some("x")), story(3, Some("linux"))];
    let b = vec![story(3, Some("linux")), story(1, Some("Rust")), story(2, Some("x"))];
    let mut ra = ids_of(&finish_run(a.into_iter().map(Ok).collect(), &m).ok().unwrap());
    let mut rb = ids_of(&finish_run(b.into_iter().map(Ok).collect(), &m).ok().unwrap());
    ra.sort();
    rb.sort();
    assert_eq!(ra, rb);
    assert_eq!(ra, vec![1, 3]);
}
