use aws_iam::model::containers::OneOrAny;

#[test]
fn test_is_any() {
    let c: OneOrAny<String> = OneOrAny::Any;
    assert!(c.is_any());
    assert!(!c.is_one());
    assert!(!c.is_any_of());
}

#[test]
fn test_is_one() {
    let c: OneOrAny<String> = OneOrAny::One("s3:ListBucket".to_string());
    assert!(!c.is_any());
    assert!(c.is_one());
    assert!(!c.is_any_of());
}

#[test]
fn test_is_any_of() {
    let c: OneOrAny<String> = OneOrAny::AnyOf(vec!["a".to_string(), "b".to_string()]);
    assert!(!c.is_any());
    assert!(!c.is_one());
    assert!(c.is_any_of());
}

#[test]
fn test_one() {
    let c: OneOrAny<String> = OneOrAny::One("x".to_string());
    assert_eq!(c.one(), Some("x".to_string()));
    let c: OneOrAny<String> = OneOrAny::Any;
    assert_eq!(c.one(), None);
    let c: OneOrAny<String> = OneOrAny::AnyOf(vec!["x".to_string()]);
    assert_eq!(c.one(), None);
}

#[test]
fn test_any_of() {
    let c: OneOrAny<String> = OneOrAny::AnyOf(vec!["x".to_string(), "y".to_string()]);
    assert_eq!(c.any_of(), Some(vec!["x".to_string(), "y".to_string()]));
    let c: OneOrAny<String> = OneOrAny::Any;
    assert_eq!(c.any_of(), None);
    let c: OneOrAny<String> = OneOrAny::One("x".to_string());
    assert_eq!(c.any_of(), None);
}
