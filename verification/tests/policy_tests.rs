use aws_iam::model::builder::ConditionBuilder;
use aws_iam::model::containers::{OneOrAll, OneOrAny};
use aws_iam::model::elements::{
    ActionIdentifier, Effect, GlobalConditionOperator, ResourceIdentifier, Version,
};
use aws_iam::model::error::{DocumentError, ElementError, PolicyError};
use aws_iam::model::policy::{Action, Policy, Principal, Resource, Statement};
use aws_iam::model::elements::PrincipalType;

fn serialize_and_check(policy: &Policy, expected: &str) {
    let json = policy.to_json_string();
    assert_eq!(json, expected.to_string());
    let parsed: Result<Policy, PolicyError> = Policy::from_json_str(&json);
    assert!(parsed.is_ok());
    assert_eq!(&parsed.unwrap(), policy);
}

#[test]
fn test_simple_access_policy() {
    let expected = "{\"Version\":\"2012-10-17\",\"Id\":\"test_simple_access_policy\",\"Statement\":{\"Effect\":\"Allow\",\"Action\":\"s3:ListBucket\",\"Resource\":\"arn:aws:s3:::example_bucket\"}}";
    let policy = Policy {
        version: Some(Version::V2012),
        id: Some("test_simple_access_policy".to_string()),
        statement: OneOrAll::One(Statement::new(
            Effect::Allow,
            Action::Action(OneOrAny::One("s3:ListBucket".parse().unwrap())),
            Resource::this("arn:aws:s3:::example_bucket".to_string()),
        )),
    };
    serialize_and_check(&policy, expected);
}

#[test]
fn test_access_policy_with_statements() {
    let expected = "{\"Version\":\"2012-10-17\",\"Id\":\"test_access_policy_with_statements\",\"Statement\":[{\"Effect\":\"Allow\",\"Action\":\"s3:ListBucket\",\"Resource\":\"arn:aws:s3:::example_bucket\"},{\"Effect\":\"Allow\",\"Action\":\"s3:SomethingElse\",\"Resource\":\"arn:aws:s3:::example_bucket_2\"}]}";
    let policy = Policy {
        version: Some(Version::V2012),
        id: Some("test_access_policy_with_statements".to_string()),
        statement: OneOrAll::All(vec![
            Statement {
                sid: None,
                principal: None,
                effect: Effect::Allow,
                action: Action::Action(OneOrAny::One("s3:ListBucket".parse().unwrap())),
                resource: Some(Resource::this("arn:aws:s3:::example_bucket".to_string())),
                condition: None,
            },
            Statement {
                sid: None,
                principal: None,
                effect: Effect::Allow,
                action: Action::Action(OneOrAny::One("s3:SomethingElse".parse().unwrap())),
                resource: Some(Resource::this("arn:aws:s3:::example_bucket_2".to_string())),
                condition: None,
            },
        ]),
    };
    serialize_and_check(&policy, expected);
}

#[test]
fn test_access_policy_with_principal() {
    let expected = "{\"Version\":\"2012-10-17\",\"Id\":\"test_access_policy_with_principal\",\"Statement\":[{\"Sid\":\"1\",\"Principal\":{\"AWS\":[\"arn:aws:iam::ACCOUNT-ID-WITHOUT-HYPHENS:root\"]},\"Effect\":\"Allow\",\"Action\":\"s3:*\",\"Resource\":[\"arn:aws:s3:::mybucket\",\"arn:aws:s3:::mybucket/*\"]}]}";
    let principal = Principal::these(
        PrincipalType::AWS,
        &mut vec!["arn:aws:iam::ACCOUNT-ID-WITHOUT-HYPHENS:root".to_string()],
    );
    let policy = Policy {
        version: Some(Version::V2012),
        id: Some("test_access_policy_with_principal".to_string()),
        statement: OneOrAll::All(vec![Statement {
            sid: Some("1".to_string()),
            principal: Some(principal),
            effect: Effect::Allow,
            action: Action::Action(OneOrAny::One("s3:*".parse().unwrap())),
            resource: Some(Resource::these(&mut vec![
                "arn:aws:s3:::mybucket".to_string(),
                "arn:aws:s3:::mybucket/*".to_string(),
            ])),
            condition: None,
        }]),
    };
    serialize_and_check(&policy, expected);
}

#[test]
fn test_access_policy_with_condition() {
    let expected = "{\"Version\":\"2012-10-17\",\"Id\":\"test_access_policy_with_condition\",\"Statement\":[{\"Sid\":\"ThirdStatement\",\"Effect\":\"Allow\",\"Action\":[\"s3:List*\",\"s3:Get*\"],\"Resource\":[\"arn:aws:s3:::confidential-data\",\"arn:aws:s3:::confidential-data/*\"],\"Condition\":{\"Bool\":{\"aws:MultiFactorAuthPresent\":\"true\"}}}]}";
    let condition = ConditionBuilder::new(GlobalConditionOperator::Bool)
        .right_hand_str("aws:MultiFactorAuthPresent", "true")
        .build_as_condition();
    let policy = Policy {
        version: Some(Version::V2012),
        id: Some("test_access_policy_with_condition".to_string()),
        statement: OneOrAll::All(vec![Statement {
            sid: Some("ThirdStatement".to_string()),
            principal: None,
            effect: Effect::Allow,
            action: Action::these(&mut vec![
                "s3:List*".parse().unwrap(),
                "s3:Get*".parse().unwrap(),
            ]),
            resource: Some(Resource::these(&mut vec![
                "arn:aws:s3:::confidential-data".to_string(),
                "arn:aws:s3:::confidential-data/*".to_string(),
            ])),
            condition: Some(condition),
        }]),
    };
    serialize_and_check(&policy, expected);
}

#[test]
fn test_deserialize() {
    let raw_string = r#"{
    "Version": "2012-10-17",
    "Statement": [
        {
            "Effect": "Allow",
            "Action": [
                "aws-portal:ViewBilling",
                "aws-portal:ViewPaymentMethods",
                "aws-portal:ModifyPaymentMethods",
                "aws-portal:ViewAccount",
                "aws-portal:ModifyAccount",
                "aws-portal:ViewUsage"
            ],
            "Resource": [
                "*"
            ],
            "Condition": {
                "IpAddress": {
                    "aws:SourceIp": "203.0.113.0/24"
                }
            }
        },
        {
            "Effect": "Deny",
            "Action": [
                "s3:*"
            ],
            "Resource": [
                "arn:aws:s3:::customer",
                "arn:aws:s3:::customer/*"
            ]
        },
        {
            "Effect": "Allow",
            "Action": [
                "ec2:GetConsoleScreenshots"
            ],
            "Resource": [
                "*"
            ]
        },
        {
            "Effect": "Allow",
            "Action": [
                "codedploy:*",
                "codecommit:*"
            ],
            "Resource": [
                "arn:aws:codedeploy:us-west-2:123456789012:deploymentgroup:*",
                "arn:aws:codebuild:us-east-1:123456789012:project/my-demo-project"
            ]
        },
        {
            "Effect": "Allow",
            "Action": [
                "s3:ListAllMyBuckets",
                "s3:GetObject",
                "s3:DeletObject",
                "s3:PutObject",
                "s3:PutObjectAcl"
            ],
            "Resource": [
                "arn:aws:s3:::developer_bucket",
                "arn:aws:s3:::developer_bucket/*",
                "arn:aws:autoscling:us-east-2:123456789012:autoscalgrp"
            ],
            "Condition": {
                "StringEquals": {
                    "s3:x-amz-acl": [
                        "public-read"
                    ],
                    "s3:prefix": [
                        "custom",
                        "other"
                    ]
                }
            }
        }
    ]
}"#;
    let policy: Result<Policy, PolicyError> = Policy::from_json_str(raw_string);
    assert!(policy.is_ok());
}

#[test]
fn test_principal_star_is_distinct() {
    let text = "{\"Statement\":{\"Principal\":\"*\",\"Effect\":\"Allow\",\"Action\":\"sts:AssumeRole\"}}";
    let policy = Policy::from_json_str(text).expect("policy parses");
    match &policy.statement {
        OneOrAll::One(st) => {
            assert_eq!(st.principal, Some(Principal::Any));
            assert!(!matches!(st.principal, Some(Principal::Principal(_))));
        }
        _ => panic!("expected a single statement"),
    }
    assert_eq!(policy.to_json_string(), text.to_string());
}

#[test]
fn test_one_element_array_stays_array() {
    let text = "{\"Statement\":{\"Effect\":\"Allow\",\"Action\":[\"s3:Get*\"]}}";
    let policy = Policy::from_json_str(text).expect("policy parses");
    match &policy.statement {
        OneOrAll::One(st) => match &st.action {
            Action::Action(OneOrAny::AnyOf(items)) => assert_eq!(items.len(), 1),
            _ => panic!("expected the list form"),
        },
        _ => panic!("expected a single statement"),
    }
    assert_eq!(policy.to_json_string(), text.to_string());
}

#[test]
fn test_unknown_version_rejected() {
    let text = "{\"Version\":\"1999-01-01\",\"Statement\":{\"Effect\":\"Allow\",\"Action\":\"s3:Get*\"}}";
    let err = Policy::from_json_str(text).unwrap_err();
    match err {
        PolicyError::Document(_, DocumentError::UnknownVersion(v)) => {
            assert_eq!(v, "1999-01-01".to_string());
        }
        other => panic!("unexpected error: {:?}", other),
    }
}

#[test]
fn test_action_and_not_action_conflict() {
    let text = "{\"Statement\":{\"Effect\":\"Allow\",\"Action\":\"s3:Get*\",\"NotAction\":\"s3:Put*\"}}";
    let err = Policy::from_json_str(text).unwrap_err();
    assert!(matches!(
        err,
        PolicyError::Document(_, DocumentError::ConflictingFields(_))
    ));
    let text2 = "{\"Statement\":{\"Effect\":\"Allow\"}}";
    let err2 = Policy::from_json_str(text2).unwrap_err();
    assert!(matches!(
        err2,
        PolicyError::Document(_, DocumentError::ConflictingFields(_))
    ));
}

#[test]
fn test_malformed_action_rejected() {
    let text = "{\"Statement\":{\"Effect\":\"Allow\",\"Action\":\"s3\"}}";
    let err = Policy::from_json_str(text).unwrap_err();
    match err {
        PolicyError::Shape(_, aws_iam::model::error::ShapeError::ElementParse(
            ElementError::MalformedAction(t),
        )) => assert_eq!(t, "s3".to_string()),
        other => panic!("unexpected error: {:?}", other),
    }
}

#[test]
fn test_error_text_deterministic() {
    let text = "{\"Version\":42,\"Statement\":{}}";
    let e1 = Policy::from_json_str(text).unwrap_err();
    let e2 = Policy::from_json_str(text).unwrap_err();
    assert_eq!(format!("{:?}", e1), format!("{:?}", e2));
    assert_eq!(e1, e2);
}

#[test]
fn test_wildcard_beside_others_rejected() {
    let text = "{\"Statement\":{\"Effect\":\"Allow\",\"Action\":[\"*\",\"s3:Get*\"]}}";
    let err = Policy::from_json_str(text).unwrap_err();
    assert!(matches!(
        err,
        PolicyError::Shape(_, aws_iam::model::error::ShapeError::WildcardInArray)
    ));
}

#[test]
fn test_single_statement_scalar_round_trip() {
    let text = "{\"Version\":\"2012-10-17\",\"Statement\":{\"Effect\":\"Allow\",\"Action\":\"s3:ListBucket\",\"Resource\":\"arn:aws:s3:::example_bucket\"}}";
    let policy = Policy::from_json_str(text).expect("policy parses");
    assert!(matches!(policy.statement, OneOrAll::One(_)));
    assert_eq!(policy.to_json_string(), text.to_string());
}

#[test]
fn test_many_actions_round_trip() {
    let text = "{\"Statement\":{\"Effect\":\"Allow\",\"Action\":[\"s3:List*\",\"s3:Get*\"]}}";
    let policy = Policy::from_json_str(text).expect("policy parses");
    match &policy.statement {
        OneOrAll::One(st) => match &st.action {
            Action::Action(OneOrAny::AnyOf(items)) => assert_eq!(items.len(), 2),
            other => panic!("expected the list form, got {:?}", other),
        },
        _ => panic!("expected a single statement"),
    }
    assert_eq!(policy.to_json_string(), text.to_string());
}

#[test]
fn test_builders_round_trip() {
    let condition = ConditionBuilder::new(GlobalConditionOperator::StringEquals)
        .right_hand_all(
            "s3:prefix",
            &mut vec!["custom".to_string(), "other".to_string()],
        )
        .right_hand_str("s3:x-amz-acl", "public-read")
        .build_as_condition();
    let policy = Policy {
        version: Some(Version::V2008),
        id: None,
        statement: OneOrAll::One(Statement {
            sid: None,
            principal: Some(Principal::this(
                PrincipalType::Service,
                "lambda.amazonaws.com".to_string(),
            )),
            effect: Effect::Deny,
            action: Action::this("s3:PutObject".parse().unwrap()),
            resource: None,
            condition: Some(condition),
        }),
    };
    let json = policy.to_json_string();
    assert_eq!(
        json,
        "{\"Version\":\"2008-10-17\",\"Statement\":{\"Principal\":{\"Service\":\"lambda.amazonaws.com\"},\"Effect\":\"Deny\",\"Action\":\"s3:PutObject\",\"Condition\":{\"StringEquals\":{\"s3:prefix\":[\"custom\",\"other\"],\"s3:x-amz-acl\":\"public-read\"}}}}"
    );
    let reparsed = Policy::from_json_str(&json).expect("round trip parses");
    assert_eq!(reparsed, policy);
}

#[test]
fn test_string_escapes_round_trip() {
    let policy = Policy {
        version: None,
        id: Some("line\none\t\"quoted\" \\ back".to_string()),
        statement: OneOrAll::One(Statement {
            sid: None,
            principal: None,
            effect: Effect::Allow,
            action: Action::this("s3:Get*".parse().unwrap()),
            resource: None,
            condition: None,
        }),
    };
    let json = policy.to_json_string();
    let reparsed = Policy::from_json_str(&json).expect("round trip parses");
    assert_eq!(reparsed, policy);
}

#[test]
fn test_unicode_escapes_decode() {
    let text = "{\"Id\":\"caf\\u00e9 \\u0041\",\"Statement\":{\"Effect\":\"Allow\",\"Action\":\"s3:Get*\"}}";
    let policy = Policy::from_json_str(text).expect("policy parses");
    assert_eq!(policy.id, Some("caf\u{e9} A".to_string()));
}

#[test]
fn test_surrogate_pair_decodes() {
    let text = "{\"Id\":\"\\uD83D\\uDE00\",\"Statement\":{\"Effect\":\"Allow\",\"Action\":\"s3:Get*\"}}";
    let policy = Policy::from_json_str(text).expect("policy parses");
    assert_eq!(policy.id, Some("\u{1F600}".to_string()));
}

#[test]
fn test_lone_surrogate_rejected() {
    let text = "{\"Id\":\"\\uD83D\",\"Statement\":{\"Effect\":\"Allow\",\"Action\":\"s3:Get*\"}}";
    let err = Policy::from_json_str(text).unwrap_err();
    match err {
        PolicyError::Syntax(e) => {
            assert_eq!(e.kind, aws_iam::model::error::SyntaxErrorKind::BadEscape);
        }
        other => panic!("unexpected error: {:?}", other),
    }
}

#[test]
fn test_control_characters_escape_and_round_trip() {
    let policy = Policy {
        version: None,
        id: Some("a\u{0}b\u{1f}c".to_string()),
        statement: OneOrAll::One(Statement {
            sid: None,
            principal: None,
            effect: Effect::Allow,
            action: Action::this("s3:Get*".parse().unwrap()),
            resource: None,
            condition: None,
        }),
    };
    let json = policy.to_json_string();
    assert!(json.starts_with("{\"Id\":\"a\\u0000b\\u001fc\""));
    let reparsed = Policy::from_json_str(&json).expect("round trip parses");
    assert_eq!(reparsed, policy);
}

#[test]
fn test_identifier_ordering_is_string_based() {
    let a: ActionIdentifier = "s3:GetObject".parse().unwrap();
    let b: ActionIdentifier = "s3:ListBucket".parse().unwrap();
    assert!(a < b);
    let r: ResourceIdentifier = "arn:aws:s3:::alpha".parse().unwrap();
    let t: ResourceIdentifier = "arn:aws:s3:::beta".parse().unwrap();
    assert!(r < t);
}
