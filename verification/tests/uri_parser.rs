use rust_http_framework::{ParamCountMismatch, UriParser};

fn pair(name: &str, value: &str) -> (String, String) {
    (name.to_string(), value.to_string())
}

#[test]
fn a_uri_fits_its_template_and_gives_its_parameters() {
    let pattern = UriParser::from("/users/:id");
    assert!(pattern.matches("/users/42"));
    assert_eq!(pattern.parse("/users/42"), Ok(vec![pair("id", "42")]));
}

#[test]
fn a_uri_with_another_number_of_segments_does_not_fit() {
    let pattern = UriParser::from("/users/:id");
    assert!(!pattern.matches("/users/42/extra"));
    assert!(!pattern.matches("/users"));
    assert!(!pattern.matches("/users/42/"));
    assert!(!pattern.matches(""));
}

#[test]
fn a_literal_segment_must_be_equal() {
    let pattern = UriParser::from("/users/:id/posts");
    assert!(pattern.matches("/users/7/posts"));
    assert!(!pattern.matches("/users/7/post"));
    assert!(!pattern.matches("/Users/7/posts"));
    assert!(!pattern.matches("/users/7/postss"));
}

#[test]
fn a_dynamic_segment_takes_any_value() {
    let pattern = UriParser::from("/:a/:b");
    assert!(pattern.matches("/x/y"));
    assert!(pattern.matches("//"));
    assert!(pattern.matches("/:a/:b"));
    assert_eq!(pattern.parse("/x/y"), Ok(vec![pair("a", "x"), pair("b", "y")]));
    assert_eq!(pattern.parse("//"), Ok(vec![pair("a", ""), pair("b", "")]));
}

#[test]
fn parameters_come_in_the_order_of_their_segments() {
    let pattern = UriParser::from("/accounts/:a/addresses/:b");
    assert_eq!(
        pattern.parse("/accounts/12/addresses/home"),
        Ok(vec![pair("a", "12"), pair("b", "home")])
    );
}

#[test]
fn fragment_and_query_of_the_uri_are_left_out() {
    let pattern = UriParser::from("/users/:id");
    assert!(pattern.matches("/users/42?x=1"));
    assert!(pattern.matches("/users/42#top"));
    assert!(pattern.matches("/users/42?x=1#top"));
    assert!(pattern.matches("/users/42#top?x/y"));
    assert_eq!(pattern.parse("/users/42?x=1/2#a/b"), Ok(vec![pair("id", "42")]));
}

#[test]
fn fragment_and_query_of_the_template_are_left_out() {
    let pattern = UriParser::from("/users/:id?x=:y#:z/w");
    assert_eq!(pattern.path(), "/users/:id");
    assert!(pattern.matches("/users/42"));
    assert_eq!(pattern.parse("/users/42"), Ok(vec![pair("id", "42")]));
}

#[test]
fn the_template_keeps_its_dynamic_segments_as_written() {
    let pattern = UriParser::from("/users/:id");
    assert_eq!(pattern.path(), "/users/:id");
    assert_eq!(pattern.dynamic_params().len(), 1);
    assert_eq!(pattern.dynamic_params().get(&2), Some(&"id".to_string()));
    assert_eq!(pattern.dynamic_params().get(&1), None);
}

#[test]
fn the_root_has_two_segments_and_the_empty_path_one() {
    let root = UriParser::from("/");
    let empty = UriParser::from("");
    assert!(root.matches("/"));
    assert!(!root.matches(""));
    assert!(empty.matches(""));
    assert!(!empty.matches("/"));
    assert!(empty.matches("?a=1"));
    assert!(empty.matches("#x"));
}

#[test]
fn a_trailing_slash_is_a_segment() {
    let pattern = UriParser::from("/a");
    assert!(pattern.matches("/a"));
    assert!(!pattern.matches("/a/"));
    let pattern = UriParser::from("/a/");
    assert!(pattern.matches("/a/"));
    assert!(!pattern.matches("/a"));
}

#[test]
fn an_extraction_that_finds_too_few_parameters_fails() {
    let pattern = UriParser::from("/a/:x/:y");
    assert_eq!(pattern.parse("/a"), Err(ParamCountMismatch { expected: 2, found: 0 }));
    assert_eq!(pattern.parse("/a/1"), Err(ParamCountMismatch { expected: 2, found: 1 }));
    assert_eq!(pattern.parse(""), Err(ParamCountMismatch { expected: 2, found: 0 }));
}

#[test]
fn an_extraction_does_not_look_at_literal_segments() {
    let pattern = UriParser::from("/a/:x");
    assert!(!pattern.matches("/b/1"));
    assert_eq!(pattern.parse("/b/1"), Ok(vec![pair("x", "1")]));
    assert_eq!(pattern.parse("/b/1/more"), Ok(vec![pair("x", "1")]));
}

#[test]
fn a_template_without_dynamic_segments_gives_no_parameters() {
    let pattern = UriParser::from("/static/page");
    assert!(pattern.matches("/static/page"));
    assert_eq!(pattern.parse("/static/page"), Ok(vec![]));
    assert_eq!(pattern.parse("/other"), Ok(vec![]));
    assert_eq!(pattern.dynamic_params().len(), 0);
}

#[test]
fn a_colon_inside_a_segment_is_literal() {
    let pattern = UriParser::from("/a:b/c");
    assert!(pattern.matches("/a:b/c"));
    assert!(!pattern.matches("/x/c"));
    assert_eq!(pattern.parse("/a:b/c"), Ok(vec![]));
}

#[test]
fn a_lone_colon_names_the_empty_parameter() {
    let pattern = UriParser::from("/:");
    assert!(pattern.matches("/anything"));
    assert_eq!(pattern.parse("/anything"), Ok(vec![pair("", "anything")]));
}

#[test]
fn compiling_twice_gives_patterns_that_behave_alike() {
    let first = UriParser::from("/users/:id/posts/:post");
    let second = UriParser::from("/users/:id/posts/:post");
    let uris = [
        "/users/1/posts/2",
        "/users/1/posts",
        "/users//posts/",
        "/users/1/posts/2/",
        "/x/1/posts/2",
        "",
        "/",
        "/users/1/posts/2?q=1#f",
    ];
    for uri in uris {
        assert_eq!(first.matches(uri), second.matches(uri));
        assert_eq!(first.parse(uri), second.parse(uri));
    }
    assert_eq!(first.path(), second.path());
}

#[test]
fn a_match_is_followed_by_a_full_extraction() {
    let pattern = UriParser::from("/:a/b/:c");
    for uri in ["/1/b/2", "//b/", "/x/b/y?z", "/1/c/2", "/1/b", "/1/b/2/3"] {
        if pattern.matches(uri) {
            assert_eq!(pattern.parse(uri).map(|params| params.len()), Ok(2));
        }
    }
    assert!(pattern.matches("/1/b/2"));
}

#[test]
fn extract_fragment_cuts_at_the_first_hash() {
    assert_eq!(UriParser::extract_fragment("/a#b#c"), "/a");
    assert_eq!(UriParser::extract_fragment("/a"), "/a");
    assert_eq!(UriParser::extract_fragment("#b"), "");
    assert_eq!(UriParser::extract_fragment(""), "");
}

#[test]
fn split_search_parts_at_the_first_question_mark() {
    assert_eq!(UriParser::split_search("/a?b=1?c"), ("/a", "b=1?c"));
    assert_eq!(UriParser::split_search("/a"), ("/a", ""));
    assert_eq!(UriParser::split_search("/a?"), ("/a", ""));
    assert_eq!(UriParser::split_search("?x"), ("", "x"));
}

#[test]
fn a_clone_is_the_same_pattern() {
    let pattern = UriParser::from("/users/:id");
    let copy = pattern.clone();
    assert_eq!(copy.path(), "/users/:id");
    assert!(copy.matches("/users/42"));
    assert_eq!(copy.parse("/users/42"), pattern.parse("/users/42"));
}
