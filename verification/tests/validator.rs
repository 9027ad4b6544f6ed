use s3_path::error::ComponentViolation;
use s3_path::validation::validate_component;
use s3_path::S3PathBuf;

#[test]
fn lib_reject_invalid_characters() {
    assert_eq!(S3PathBuf::try_from(&["foo-bar"]).unwrap().render(), "foo-bar");
    assert_eq!(S3PathBuf::try_from(&["foo_bar"]).unwrap().render(), "foo_bar");
    assert_eq!(S3PathBuf::try_from(&["foo.bar"]).unwrap().render(), "foo.bar");
    assert_eq!(S3PathBuf::try_from(&[".test"]).unwrap().render(), ".test");
    assert_eq!(S3PathBuf::try_from(&["..test"]).unwrap().render(), "..test");

    assert!(S3PathBuf::try_from(&["foo:bar"]).is_err());
    assert!(S3PathBuf::try_from(&["foo;bar"]).is_err());
    assert!(S3PathBuf::try_from(&["foo$bar"]).is_err());
    assert!(S3PathBuf::try_from(&["foo&bar"]).is_err());
    assert!(S3PathBuf::try_from(&["foo#bar"]).is_err());
    assert!(S3PathBuf::try_from(&["foo/bar"]).is_err());
    assert!(S3PathBuf::try_from(&["foo|bar"]).is_err());
    assert!(S3PathBuf::try_from(&["foo\\bar"]).is_err());
    assert!(S3PathBuf::try_from(&["."]).is_err());
    assert!(S3PathBuf::try_from(&[".."]).is_err());
}

#[test]
fn validate_accepts_allowed_components() {
    assert!(validate_component("foo").is_ok());
    assert!(validate_component("FOO9").is_ok());
    assert!(validate_component("a-b_c.d").is_ok());
    assert!(validate_component(".test").is_ok());
    assert!(validate_component("..test").is_ok());
    assert!(validate_component("...").is_ok());
}

#[test]
fn validate_rejects_the_empty_component() {
    let e = validate_component("").unwrap_err();
    assert_eq!(e.component, "");
    assert_eq!(e.reason, ComponentViolation::EmptyComponent);
}

#[test]
fn validate_rejects_traversal_components() {
    let e = validate_component(".").unwrap_err();
    assert_eq!(e.component, ".");
    assert_eq!(e.reason, ComponentViolation::TraversalComponent);

    let e = validate_component("..").unwrap_err();
    assert_eq!(e.component, "..");
    assert_eq!(e.reason, ComponentViolation::TraversalComponent);
}

#[test]
fn validate_reports_the_first_illegal_character() {
    let e = validate_component("invalid/path").unwrap_err();
    assert_eq!(e.component, "invalid/path");
    assert_eq!(e.reason, ComponentViolation::IllegalCharacter('/'));

    let e = validate_component("a b/c").unwrap_err();
    assert_eq!(e.reason, ComponentViolation::IllegalCharacter(' '));

    let e = validate_component("\u{e9}clair").unwrap_err();
    assert_eq!(e.reason, ComponentViolation::IllegalCharacter('\u{e9}'));
}

#[test]
fn message_names_component_and_reason() {
    let e = validate_component("").unwrap_err();
    assert_eq!(e.message(), "Invalid S3 path component '': Empty component is not allowed");

    let e = validate_component("foo$bar").unwrap_err();
    assert_eq!(
        e.message(),
        "Invalid S3 path component 'foo$bar': Character '$' is not allowed"
    );

    let e = validate_component("..").unwrap_err();
    assert_eq!(
        e.message(),
        "Invalid S3 path component '..': Potentially path traversing components are forbidden."
    );
}
