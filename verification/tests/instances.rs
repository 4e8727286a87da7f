use andromeda::instances::{validate_description, ErrorKind};

#[test]
fn descriptions_are_trimmed_and_limited() {
    assert_eq!(validate_description("  a build box \n").ok().unwrap(), "a build box");
    assert_eq!(validate_description(&"x".repeat(2000)).ok().unwrap().len(), 2000);
    let long = validate_description(&"é".repeat(2001)).err().unwrap();
    assert_eq!(long.kind, ErrorKind::InvalidInput);
    assert_eq!(
        long.message,
        "Description must be at most 2000 characters and cannot contain NUL characters."
    );
    assert!(validate_description("a\0b").is_err());
    assert_eq!(validate_description(&format!("  {}  ", "é".repeat(2000))).ok().unwrap().chars().count(), 2000);
}
