//! The policy data model: shape containers, policy element types, and the
//! statement and policy aggregates, together with their builders.

pub mod builder;
pub mod containers;
pub mod elements;
pub mod error;
pub mod policy;

pub use builder::ConditionBuilder;
pub use containers::{OneOrAll, OneOrAny};
pub use elements::{
    ActionIdentifier, Effect, GlobalConditionOperator, PrincipalType, ResourceIdentifier, Version,
};
pub use error::{
    DocumentError, ElementError, JsonSyntaxError, PathSegment, PolicyError, ShapeError,
    SyntaxErrorKind,
};
pub use policy::{Action, Condition, Policy, Principal, Resource, Statement};
