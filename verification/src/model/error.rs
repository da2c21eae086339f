//! The error taxonomy of the parse pipeline.
//!
//! A parse either yields a fully validated policy or exactly one error:
//! a JSON syntax error, a shape error (the JSON value at a field matches
//! none of the legal shapes), an element error (a scalar had the right
//! shape but failed its domain grammar), or a document error (a
//! cross-field invariant was violated).  Shape, element and document
//! errors carry the path of the failing JSON location.

use vstd::prelude::*;

verus! {

/// One step of the path from the document root to the JSON value at fault.
#[derive(Debug, Clone, PartialEq, Eq)]
pub enum PathSegment {
    /// Descent into an object under the given key.
    Field(String),
    /// Descent into an array at the given index.
    Index(usize),
}

/// The mathematical model of a path segment.
pub ghost enum SpecPathSegment {
    Field(Seq<char>),
    Index(int),
}

impl View for PathSegment {
    type V = SpecPathSegment;

    open spec fn view(&self) -> SpecPathSegment {
        match self {
            PathSegment::Field(s) => SpecPathSegment::Field(s@),
            PathSegment::Index(i) => SpecPathSegment::Index(*i as int),
        }
    }
}

impl DeepView for PathSegment {
    type V = SpecPathSegment;

    open spec fn deep_view(&self) -> SpecPathSegment {
        self.view()
    }
}

/// A scalar value had the right JSON shape but failed its domain grammar.
#[derive(Debug, Clone, PartialEq, Eq)]
pub enum ElementError {
    /// A scalar that is not a JSON string stood where only strings parse.
    NotAString,
    /// An action identifier that is not the wildcard and has no colon, or
    /// starts or ends with its colon.
    MalformedAction(String),
    /// A resource identifier that is neither the wildcard nor ARN-shaped.
    MalformedResource(String),
    /// An effect token other than `Allow` or `Deny`.
    UnknownEffect(String),
    /// A principal-type key outside the closed set of principal types.
    UnknownPrincipalType(String),
    /// A condition-operator key outside the closed set of global condition
    /// operators.
    UnknownOperator(String),
}

/// The mathematical model of an element error.
pub ghost enum SpecElementError {
    NotAString,
    MalformedAction(Seq<char>),
    MalformedResource(Seq<char>),
    UnknownEffect(Seq<char>),
    UnknownPrincipalType(Seq<char>),
    UnknownOperator(Seq<char>),
}

impl View for ElementError {
    type V = SpecElementError;

    open spec fn view(&self) -> SpecElementError {
        match self {
            ElementError::NotAString => SpecElementError::NotAString,
            ElementError::MalformedAction(s) => SpecElementError::MalformedAction(s@),
            ElementError::MalformedResource(s) => SpecElementError::MalformedResource(s@),
            ElementError::UnknownEffect(s) => SpecElementError::UnknownEffect(s@),
            ElementError::UnknownPrincipalType(s) => SpecElementError::UnknownPrincipalType(s@),
            ElementError::UnknownOperator(s) => SpecElementError::UnknownOperator(s@),
        }
    }
}

/// The JSON value at a field matches none of the legal shapes for that
/// field.
#[derive(Debug, Clone, PartialEq, Eq)]
pub enum ShapeError {
    /// A JSON object or array stood where the field takes none.
    UnexpectedShape,
    /// The wildcard token appeared inside an array beside other elements.
    WildcardInArray,
    /// A scalar of the wrong kind, or a malformed scalar, carrying the
    /// element-level cause.
    ElementParse(ElementError),
}

/// The mathematical model of a shape error.
pub ghost enum SpecShapeError {
    UnexpectedShape,
    WildcardInArray,
    ElementParse(SpecElementError),
}

impl View for ShapeError {
    type V = SpecShapeError;

    open spec fn view(&self) -> SpecShapeError {
        match self {
            ShapeError::UnexpectedShape => SpecShapeError::UnexpectedShape,
            ShapeError::WildcardInArray => SpecShapeError::WildcardInArray,
            ShapeError::ElementParse(e) => SpecShapeError::ElementParse(e@),
        }
    }
}

/// A cross-field invariant of the document was violated.
#[derive(Debug, Clone, PartialEq, Eq)]
pub enum DocumentError {
    /// Of a pair of mutually exclusive fields (named by the payload, e.g.
    /// `Action` for the `Action`/`NotAction` pair), both were present, or
    /// neither was present where one is required.
    ConflictingFields(String),
    /// A `Version` tag outside the set of known policy language versions.
    UnknownVersion(String),
    /// A field that the document grammar requires was absent.
    MissingField(String),
    /// The same key appeared twice in one JSON object.
    DuplicateField(String),
    /// A key that the document grammar does not know.
    UnknownField(String),
}

/// The mathematical model of a document error.
pub ghost enum SpecDocumentError {
    ConflictingFields(Seq<char>),
    UnknownVersion(Seq<char>),
    MissingField(Seq<char>),
    DuplicateField(Seq<char>),
    UnknownField(Seq<char>),
}

impl View for DocumentError {
    type V = SpecDocumentError;

    open spec fn view(&self) -> SpecDocumentError {
        match self {
            DocumentError::ConflictingFields(s) => SpecDocumentError::ConflictingFields(s@),
            DocumentError::UnknownVersion(s) => SpecDocumentError::UnknownVersion(s@),
            DocumentError::MissingField(s) => SpecDocumentError::MissingField(s@),
            DocumentError::DuplicateField(s) => SpecDocumentError::DuplicateField(s@),
            DocumentError::UnknownField(s) => SpecDocumentError::UnknownField(s@),
        }
    }
}

/// A syntax error of the JSON text itself, before any policy structure is
/// seen.  `offset` is the character position at fault.
#[derive(Debug, Clone, Copy, PartialEq, Eq, Structural)]
pub struct JsonSyntaxError {
    pub offset: usize,
    pub kind: SyntaxErrorKind,
}

/// What went wrong at the character level of the JSON text.
#[derive(Debug, Clone, Copy, PartialEq, Eq, Structural)]
pub enum SyntaxErrorKind {
    /// The text ended where more input was required.
    UnexpectedEnd,
    /// A character that no JSON production allows at this position.
    UnexpectedCharacter,
    /// A backslash escape outside the supported set, a malformed
    /// `\uXXXX` escape, or a surrogate escape without its partner.
    BadEscape,
    /// Characters after the end of the top-level value.
    TrailingCharacters,
    /// The nesting of arrays and objects is deeper than the parser admits.
    TooDeep,
}

/// The single structured error a parse call can return.
#[derive(Debug, Clone, PartialEq, Eq)]
pub enum PolicyError {
    /// The text is not JSON at all.
    Syntax(JsonSyntaxError),
    /// A shape error at the given path.
    Shape(Vec<PathSegment>, ShapeError),
    /// An element error at the given path.
    Element(Vec<PathSegment>, ElementError),
    /// A document error at the given path.
    Document(Vec<PathSegment>, DocumentError),
}

/// The mathematical model of a parse error.
pub ghost enum SpecPolicyError {
    Syntax(JsonSyntaxError),
    Shape(Seq<SpecPathSegment>, SpecShapeError),
    Element(Seq<SpecPathSegment>, SpecElementError),
    Document(Seq<SpecPathSegment>, SpecDocumentError),
}

impl View for PolicyError {
    type V = SpecPolicyError;

    open spec fn view(&self) -> SpecPolicyError {
        match self {
            PolicyError::Syntax(s) => SpecPolicyError::Syntax(*s),
            PolicyError::Shape(p, k) => SpecPolicyError::Shape(p.deep_view(), k@),
            PolicyError::Element(p, k) => SpecPolicyError::Element(p.deep_view(), k@),
            PolicyError::Document(p, k) => SpecPolicyError::Document(p.deep_view(), k@),
        }
    }
}

/// The error with its path prefixed by one more leading segment: the spec
/// of [`PolicyError::nested`].
pub open spec fn spec_nested(e: SpecPolicyError, seg: SpecPathSegment) -> SpecPolicyError {
    match e {
        SpecPolicyError::Syntax(s) => SpecPolicyError::Syntax(s),
        SpecPolicyError::Shape(p, k) => SpecPolicyError::Shape(seq![seg] + p, k),
        SpecPolicyError::Element(p, k) => SpecPolicyError::Element(seq![seg] + p, k),
        SpecPolicyError::Document(p, k) => SpecPolicyError::Document(seq![seg] + p, k),
    }
}

impl PolicyError {
    /// Re-roots the error one level further from the document root, by
    /// putting `seg` in front of its path.
    pub fn nested(self, seg: PathSegment) -> (r: PolicyError)
        ensures
            r@ == spec_nested(self@, seg@),
    {
        match self {
            PolicyError::Syntax(s) => PolicyError::Syntax(s),
            PolicyError::Shape(mut p, k) => {
                let ghost p0 = p.deep_view();
                p.insert(0, seg);
                proof {
                    assert(p.deep_view() =~= seq![seg@] + p0);
                }
                PolicyError::Shape(p, k)
            },
            PolicyError::Element(mut p, k) => {
                let ghost p0 = p.deep_view();
                p.insert(0, seg);
                proof {
                    assert(p.deep_view() =~= seq![seg@] + p0);
                }
                PolicyError::Element(p, k)
            },
            PolicyError::Document(mut p, k) => {
                let ghost p0 = p.deep_view();
                p.insert(0, seg);
                proof {
                    assert(p.deep_view() =~= seq![seg@] + p0);
                }
                PolicyError::Document(p, k)
            },
        }
    }
}


impl DeepView for PolicyError {
    type V = SpecPolicyError;

    open spec fn deep_view(&self) -> SpecPolicyError {
        self.view()
    }
}

} // verus!
