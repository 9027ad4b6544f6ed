use s3_path::{S3Path, S3PathBuf};

#[test]
fn lib_new_is_initially_empty() {
    let segments: Vec<String> = Vec::new();
    let path = S3Path::new(&segments).unwrap();
    assert_eq!(path.render(), "");
}

#[test]
fn construct_using_new() {
    let segments = vec!["foo".to_string(), "bar".to_string()];
    let path = S3Path::new(&segments).unwrap();
    assert_eq!(path.render(), "foo/bar");
}

#[test]
fn new_rejects_an_invalid_component() {
    let segments = vec!["foo".to_string(), "ba/r".to_string()];
    assert!(S3Path::new(&segments).is_err());
}

#[test]
fn to_owned_converts_to_owned_path() {
    let segments = vec!["foo".to_string(), "bar".to_string()];
    let path = S3Path::new(&segments).unwrap();
    let path_owned = path.to_owned();
    assert_eq!(path_owned.render(), "foo/bar");
}

#[test]
fn join_converts_to_owned_path_and_appends_component() {
    let segments = vec!["foo".to_string(), "bar".to_string()];
    let path = S3Path::new(&segments).unwrap();
    let path_owned = path.join("baz").unwrap();
    assert_eq!(path_owned.render(), "foo/bar/baz");
}

#[test]
fn comparison_between_types() {
    let path_buf = S3PathBuf::try_from(&["foo", "bar"]).unwrap();
    let path = path_buf.as_path();

    assert!(path == path);
    assert!(path_buf == path_buf);

    assert!(path == path_buf);
    assert!(path_buf == path);

    assert!(path_buf == &path);
    assert!(&path == path_buf);

    let other_buf = S3PathBuf::try_from(&["foo", "baz"]).unwrap();
    assert!(path_buf != other_buf);
    assert!(path != other_buf);
    assert!(other_buf != path);
}
