use allora::patterns::jsonpath::jsonpath_to_pointer;

#[test]
fn jsonpath_to_pointer_strips_dollar_and_dots() {
    assert_eq!(jsonpath_to_pointer("$.action"), "/action");
    assert_eq!(jsonpath_to_pointer("$.foo.bar"), "/foo/bar");
    assert_eq!(
        jsonpath_to_pointer("$.pull_request.merged"),
        "/pull_request/merged"
    );
}

#[test]
fn jsonpath_to_pointer_handles_array_index() {
    assert_eq!(jsonpath_to_pointer("$.items[0]"), "/items/0");
    assert_eq!(jsonpath_to_pointer("$.items[0].name"), "/items/0/name");
    assert_eq!(jsonpath_to_pointer("$.x[1][2]"), "/x/1/2");
}

#[test]
fn jsonpath_to_pointer_passes_through_rfc6901() {
    assert_eq!(jsonpath_to_pointer("/foo/bar"), "/foo/bar");
    assert_eq!(jsonpath_to_pointer("/"), "/");
}

#[test]
fn jsonpath_root_alone_points_at_root() {
    assert_eq!(jsonpath_to_pointer("$"), "/");
}

#[test]
fn jsonpath_without_dollar_is_relative_to_root() {
    assert_eq!(jsonpath_to_pointer("foo.bar"), "/foo/bar");
    assert_eq!(jsonpath_to_pointer("a[3]"), "/a/3");
}
