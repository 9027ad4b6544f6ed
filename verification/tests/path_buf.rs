use s3_path::S3PathBuf;

#[test]
fn new_is_initially_empty() {
    let path = S3PathBuf::new();
    assert_eq!(path.render(), "");
}

#[test]
fn construct_using_new_and_push_components() {
    let mut path = S3PathBuf::new();
    path.push("foo").unwrap();
    path.push("bar").unwrap();
    assert_eq!(path.render(), "foo/bar");
}

#[test]
fn try_from_str_parses_empty_string_as_empty_path() {
    let path = S3PathBuf::try_from_str("").unwrap();
    assert_eq!(path.render(), "");
}

#[test]
fn try_from_str_parses_single_slash_as_empty_path() {
    let path = S3PathBuf::try_from_str("/").unwrap();
    assert_eq!(path.render(), "");
}

#[test]
fn try_from_str_removes_leading_and_trailing_slashes() {
    let path = S3PathBuf::try_from_str("/foo/bar/").unwrap();
    assert_eq!(path.render(), "foo/bar");
}

#[test]
fn try_from_str_ignores_repeated_slashes() {
    let path = S3PathBuf::try_from_str("foo/////bar").unwrap();
    assert_eq!(path.render(), "foo/bar");
}

#[test]
fn construct_using_try_from_given_str() {
    let path = S3PathBuf::try_from_str("foo/bar").unwrap();
    assert_eq!(path.render(), "foo/bar");
}

#[test]
fn construct_using_try_from_given_string() {
    let path = S3PathBuf::try_from_str(String::from("foo/bar").as_str()).unwrap();
    assert_eq!(path.render(), "foo/bar");
}

#[test]
fn try_from_static_str_array() {
    let path = S3PathBuf::try_from(&["foo", "bar"]).unwrap();
    assert_eq!(path.render(), "foo/bar");
}

#[test]
fn try_from_string_array() {
    let components = ["foo".to_string(), "bar".to_string()];
    let path = S3PathBuf::try_from(&[components[0].as_str(), components[1].as_str()]).unwrap();
    assert_eq!(path.render(), "foo/bar");
}

#[test]
fn reject_invalid_characters() {
    let mut path = S3PathBuf::new();
    let result = path.push("invalid/path");
    assert!(result.is_err());

    let result = S3PathBuf::try_from_str("foo/bar$baz");
    assert!(result.is_err());
}

#[test]
fn push_mutates_original() {
    let mut foo = S3PathBuf::try_from_str("foo").unwrap();
    foo.push("bar").unwrap();
    assert_eq!(foo.render(), "foo/bar");
}

#[test]
fn join_creates_clone() {
    let foo = S3PathBuf::try_from_str("foo").unwrap();
    let foo_bar = foo.join("bar").unwrap();

    assert_eq!(foo.render(), "foo");
    assert_eq!(foo_bar.render(), "foo/bar");
}

#[test]
fn as_path() {
    let path_buf = S3PathBuf::try_from(&["foo", "bar"]).unwrap();
    let path = path_buf.as_path();
    assert_eq!(path.render(), "foo/bar");
    let cloned = path.to_owned();
    drop(path_buf);
    assert_eq!(cloned.render(), "foo/bar");
}

#[test]
fn is_empty_returns_true_when_path_has_no_components() {
    let path_buf = S3PathBuf::new();
    assert!(path_buf.is_empty());
}

#[test]
fn is_empty_returns_false_when_path_has_components() {
    let path_buf = S3PathBuf::try_from(&["foo", "bar"]).unwrap();
    assert!(!path_buf.is_empty());
}

#[test]
fn len_returns_number_of_components() {
    let path_buf = S3PathBuf::try_from(&["foo", "bar"]).unwrap();
    assert_eq!(path_buf.len(), 2);
}

#[test]
fn components_iterates_over_all_components() {
    let path_buf = S3PathBuf::try_from(&["foo", "bar"]).unwrap();
    assert_eq!(path_buf.components(), vec!["foo", "bar"]);
}

#[test]
fn get_returns_component_at_index() {
    let path_buf = S3PathBuf::try_from(&["foo", "bar"]).unwrap();
    assert_eq!(path_buf.get(1), Some("bar"));
}

#[test]
fn last_returns_last_component() {
    let path_buf = S3PathBuf::try_from(&["foo", "bar"]).unwrap();
    assert_eq!(path_buf.last(), Some("bar"));
}

#[test]
fn parent_returns_none_when_path_has_no_components() {
    let path_buf = S3PathBuf::new();
    assert!(path_buf.parent().is_none());
}

#[test]
fn parent_returns_empty_component_when_path_has_only_one_component() {
    let path_buf = S3PathBuf::try_from(&["foo"]).unwrap();
    let parent = path_buf.parent();
    assert!(parent.is_some());
    assert_eq!(parent.unwrap().render(), "");
}

#[test]
fn parent_returns_view_of_parent_path_when_path_has_multiple_components() {
    let path_buf = S3PathBuf::try_from(&["foo", "bar", "baz"]).unwrap();
    let parent = path_buf.parent();
    assert!(parent.is_some());
    assert_eq!(parent.unwrap().render(), "foo/bar");
}

#[test]
fn to_std_path_buf_returns_empty_path_buf_when_s3_path_has_zero_components() {
    let path_buf = S3PathBuf::new();
    assert_eq!(path_buf.to_std_path_buf().display().to_string(), "");
}

#[test]
fn to_std_path_buf_joins_components_with_path_separator_does_not_add_slashes() {
    let path_buf = S3PathBuf::try_from(&["foo", "bar"]).unwrap();
    assert_eq!(path_buf.to_std_path_buf().display().to_string(), "foo/bar");
}

#[test]
fn pop_removes_and_returns_last_component() {
    let mut path_buf = S3PathBuf::try_from(&["foo", "bar"]).unwrap();
    assert_eq!(path_buf.pop(), Some("bar".to_string()));
    assert_eq!(path_buf.render(), "foo");
    assert_eq!(path_buf.pop(), Some("foo".to_string()));
    assert_eq!(path_buf.pop(), None);
    assert_eq!(path_buf.render(), "");
}

#[test]
fn default_is_the_empty_path() {
    let path_buf = S3PathBuf::default();
    assert!(path_buf.is_empty());
    assert_eq!(path_buf.render(), "");
}

#[test]
fn clone_is_equal_and_independent() {
    let mut original = S3PathBuf::try_from(&["foo", "bar"]).unwrap();
    let cloned = original.clone();
    assert_eq!(cloned, original);
    original.push("baz").unwrap();
    assert_eq!(cloned.render(), "foo/bar");
    assert_eq!(original.render(), "foo/bar/baz");
}
