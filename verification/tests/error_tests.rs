use aws_iam::model::error::{
    DocumentError, ElementError, PathSegment, PolicyError, ShapeError, SyntaxErrorKind,
};
use aws_iam::model::policy::Policy;

#[test]
fn test_unknown_effect() {
    let text = "{\"Statement\":{\"Effect\":\"Maybe\",\"Action\":\"s3:Get*\"}}";
    let err = Policy::from_json_str(text).unwrap_err();
    match err {
        PolicyError::Element(_, ElementError::UnknownEffect(t)) => {
            assert_eq!(t, "Maybe".to_string());
        }
        other => panic!("unexpected error: {:?}", other),
    }
}

#[test]
fn test_unknown_principal_type() {
    let text =
        "{\"Statement\":{\"Principal\":{\"Anyone\":\"*\"},\"Effect\":\"Allow\",\"Action\":\"s3:Get*\"}}";
    let err = Policy::from_json_str(text).unwrap_err();
    match err {
        PolicyError::Element(_, ElementError::UnknownPrincipalType(t)) => {
            assert_eq!(t, "Anyone".to_string());
        }
        other => panic!("unexpected error: {:?}", other),
    }
}

#[test]
fn test_unknown_condition_operator() {
    let text = "{\"Statement\":{\"Effect\":\"Allow\",\"Action\":\"s3:Get*\",\"Condition\":{\"SoundsLike\":{\"aws:UserAgent\":\"x\"}}}}";
    let err = Policy::from_json_str(text).unwrap_err();
    match err {
        PolicyError::Element(_, ElementError::UnknownOperator(t)) => {
            assert_eq!(t, "SoundsLike".to_string());
        }
        other => panic!("unexpected error: {:?}", other),
    }
}

#[test]
fn test_malformed_resource() {
    let text = "{\"Statement\":{\"Effect\":\"Allow\",\"Action\":\"s3:Get*\",\"Resource\":\"bucket\"}}";
    let err = Policy::from_json_str(text).unwrap_err();
    match err {
        PolicyError::Shape(_, ShapeError::ElementParse(ElementError::MalformedResource(t))) => {
            assert_eq!(t, "bucket".to_string());
        }
        other => panic!("unexpected error: {:?}", other),
    }
}

#[test]
fn test_non_string_scalar_action() {
    let text = "{\"Statement\":{\"Effect\":\"Allow\",\"Action\":42}}";
    let err = Policy::from_json_str(text).unwrap_err();
    assert!(matches!(
        err,
        PolicyError::Shape(_, ShapeError::ElementParse(ElementError::NotAString))
    ));
}

#[test]
fn test_object_shaped_action() {
    let text = "{\"Statement\":{\"Effect\":\"Allow\",\"Action\":{}}}";
    let err = Policy::from_json_str(text).unwrap_err();
    assert!(matches!(err, PolicyError::Shape(_, ShapeError::UnexpectedShape)));
}

#[test]
fn test_duplicate_field() {
    let text = "{\"Statement\":{\"Effect\":\"Allow\",\"Effect\":\"Deny\",\"Action\":\"s3:Get*\"}}";
    let err = Policy::from_json_str(text).unwrap_err();
    match err {
        PolicyError::Document(_, DocumentError::DuplicateField(t)) => {
            assert_eq!(t, "Effect".to_string());
        }
        other => panic!("unexpected error: {:?}", other),
    }
}

#[test]
fn test_missing_statement() {
    let text = "{\"Version\":\"2012-10-17\"}";
    let err = Policy::from_json_str(text).unwrap_err();
    match err {
        PolicyError::Document(_, DocumentError::MissingField(t)) => {
            assert_eq!(t, "Statement".to_string());
        }
        other => panic!("unexpected error: {:?}", other),
    }
}

#[test]
fn test_missing_effect() {
    let text = "{\"Statement\":{\"Action\":\"s3:Get*\"}}";
    let err = Policy::from_json_str(text).unwrap_err();
    match err {
        PolicyError::Document(_, DocumentError::MissingField(t)) => {
            assert_eq!(t, "Effect".to_string());
        }
        other => panic!("unexpected error: {:?}", other),
    }
}

#[test]
fn test_unknown_field() {
    let text = "{\"Flavour\":\"vanilla\",\"Statement\":{\"Effect\":\"Allow\",\"Action\":\"s3:Get*\"}}";
    let err = Policy::from_json_str(text).unwrap_err();
    match err {
        PolicyError::Document(_, DocumentError::UnknownField(t)) => {
            assert_eq!(t, "Flavour".to_string());
        }
        other => panic!("unexpected error: {:?}", other),
    }
}

#[test]
fn test_json_syntax_error() {
    let text = "{\"Statement\":";
    let err = Policy::from_json_str(text).unwrap_err();
    match err {
        PolicyError::Syntax(e) => assert_eq!(e.kind, SyntaxErrorKind::UnexpectedEnd),
        other => panic!("unexpected error: {:?}", other),
    }
}

#[test]
fn test_trailing_characters() {
    let text = "{\"Statement\":{\"Effect\":\"Allow\",\"Action\":\"s3:Get*\"}} x";
    let err = Policy::from_json_str(text).unwrap_err();
    match err {
        PolicyError::Syntax(e) => {
            assert_eq!(e.kind, SyntaxErrorKind::TrailingCharacters);
            assert_eq!(e.offset, 52);
        }
        other => panic!("unexpected error: {:?}", other),
    }
}

#[test]
fn test_bad_escape() {
    let text = "{\"Statement\":{\"Effect\":\"Allow\",\"Action\":\"s3:\\qGet\"}}";
    let err = Policy::from_json_str(text).unwrap_err();
    match err {
        PolicyError::Syntax(e) => assert_eq!(e.kind, SyntaxErrorKind::BadEscape),
        other => panic!("unexpected error: {:?}", other),
    }
}

#[test]
fn test_error_path_pinpoints_location() {
    let text = "{\"Statement\":[{\"Effect\":\"Allow\",\"Action\":\"s3:Get*\"},{\"Effect\":\"Allow\",\"Action\":\"bad\"}]}";
    let err = Policy::from_json_str(text).unwrap_err();
    match err {
        PolicyError::Shape(path, ShapeError::ElementParse(ElementError::MalformedAction(t))) => {
            assert_eq!(t, "bad".to_string());
            assert_eq!(
                path,
                vec![
                    PathSegment::Field("Statement".to_string()),
                    PathSegment::Index(1),
                    PathSegment::Field("Action".to_string()),
                ]
            );
        }
        other => panic!("unexpected error: {:?}", other),
    }
}
