//! Policy element types: the domain values that statements are built from,
//! each with its parsing grammar and its exact string representation.

use vstd::prelude::*;
use vstd::string::StrSliceExecFns;
use crate::model::error::ElementError;
use crate::strings::eq_str;

verus! {

/// True of the one-character wildcard token `*`.
pub open spec fn is_star(s: Seq<char>) -> bool {
    s.len() == 1 && s[0] == '*'
}

/// The grammar of an action identifier: the wildcard `*`, or
/// `service:action` where the text has at least one colon, does not start
/// with a colon and does not end with one.
pub open spec fn action_text_wf(s: Seq<char>) -> bool {
    ||| is_star(s)
    ||| (s.len() > 0 && s[0] != ':' && s[s.len() - 1] != ':'
        && (exists|i: int| 0 <= i < s.len() && s[i] == ':'))
}

/// The grammar of a resource identifier: the wildcard `*`, or an
/// ARN-shaped string, checked loosely by its `arn:` prefix.
pub open spec fn resource_text_wf(s: Seq<char>) -> bool {
    ||| is_star(s)
    ||| (s.len() >= 4 && s[0] == 'a' && s[1] == 'r' && s[2] == 'n' && s[3] == ':')
}

/// An action identifier of the form `service:action` (either segment may
/// use wildcard characters), or the bare wildcard.  Its view is its text;
/// equality and ordering are string-based.
#[derive(Debug, Clone, PartialEq, Eq, PartialOrd, Ord)]
pub struct ActionIdentifier {
    text: String,
}

impl View for ActionIdentifier {
    type V = Seq<char>;

    closed spec fn view(&self) -> Seq<char> {
        self.text@
    }
}

impl DeepView for ActionIdentifier {
    type V = Seq<char>;

    open spec fn deep_view(&self) -> Seq<char> {
        self.view()
    }
}

impl ActionIdentifier {
    /// Wraps already-validated text, for programmatic construction.
    pub fn new(text: String) -> (r: ActionIdentifier)
        ensures
            r@ == text@,
    {
        ActionIdentifier { text }
    }

    /// Parses an action identifier, rejecting text outside the grammar.
    pub fn parse_from_string(s: &str) -> (r: Result<ActionIdentifier, ElementError>)
        ensures
            match r {
                Ok(a) => action_text_wf(s@) && a@ == s@,
                Err(e) => !action_text_wf(s@) && (e matches ElementError::MalformedAction(t)
                    && t@ == s@),
            },
    {
        if check_action_text(s) {
            Ok(ActionIdentifier { text: crate::strings::str_owned(s) })
        } else {
            Err(ElementError::MalformedAction(crate::strings::str_owned(s)))
        }
    }

    /// The exact inverse of parsing: the identifier's text.
    pub fn to_string_repr(&self) -> (r: String)
        ensures
            r@ == self@,
    {
        self.text.clone()
    }
}

impl core::str::FromStr for ActionIdentifier {
    type Err = ElementError;

    fn from_str(s: &str) -> Result<ActionIdentifier, ElementError> {
        ActionIdentifier::parse_from_string(s)
    }
}

/// Decides `action_text_wf`.
fn check_action_text(s: &str) -> (r: bool)
    ensures
        r == action_text_wf(s@),
{
    let n = s.unicode_len();
    if n == 0 {
        return false;
    }
    if n == 1 && s.get_char(0) == '*' {
        return true;
    }
    if s.get_char(0) == ':' || s.get_char(n - 1) == ':' {
        return false;
    }
    let mut i: usize = 0;
    while i < n
        invariant
            n == s@.len(),
            1 <= n,
            0 <= i <= n,
            s@[0] != ':',
            s@[n - 1] != ':',
            forall|j: int| 0 <= j < i ==> s@[j] != ':',
        decreases n - i,
    {
        if s.get_char(i) == ':' {
            proof {
                assert(exists|j: int| 0 <= j < s@.len() && s@[j] == ':') by {
                    assert(s@[i as int] == ':');
                }
            }
            return true;
        }
        i = i + 1;
    }
    false
}

/// An ARN-shaped resource identifier or the bare wildcard.  Its view is
/// its text; equality and ordering are string-based.
#[derive(Debug, Clone, PartialEq, Eq, PartialOrd, Ord)]
pub struct ResourceIdentifier {
    text: String,
}

impl View for ResourceIdentifier {
    type V = Seq<char>;

    closed spec fn view(&self) -> Seq<char> {
        self.text@
    }
}

impl DeepView for ResourceIdentifier {
    type V = Seq<char>;

    open spec fn deep_view(&self) -> Seq<char> {
        self.view()
    }
}

impl ResourceIdentifier {
    /// Wraps already-validated text, for programmatic construction.
    pub fn new(text: String) -> (r: ResourceIdentifier)
        ensures
            r@ == text@,
    {
        ResourceIdentifier { text }
    }

    /// Parses a resource identifier, rejecting text outside the grammar.
    pub fn parse_from_string(s: &str) -> (r: Result<ResourceIdentifier, ElementError>)
        ensures
            match r {
                Ok(a) => resource_text_wf(s@) && a@ == s@,
                Err(e) => !resource_text_wf(s@) && (e matches ElementError::MalformedResource(
                    t,
                ) && t@ == s@),
            },
    {
        let n = s.unicode_len();
        let ok = if n == 1 && s.get_char(0) == '*' {
            true
        } else if n >= 4 {
            s.get_char(0) == 'a' && s.get_char(1) == 'r' && s.get_char(2) == 'n'
                && s.get_char(3) == ':'
        } else {
            false
        };
        if ok {
            Ok(ResourceIdentifier { text: crate::strings::str_owned(s) })
        } else {
            Err(ElementError::MalformedResource(crate::strings::str_owned(s)))
        }
    }

    /// The exact inverse of parsing: the identifier's text.
    pub fn to_string_repr(&self) -> (r: String)
        ensures
            r@ == self@,
    {
        self.text.clone()
    }
}

impl core::str::FromStr for ResourceIdentifier {
    type Err = ElementError;

    fn from_str(s: &str) -> Result<ResourceIdentifier, ElementError> {
        ResourceIdentifier::parse_from_string(s)
    }
}

/// The effect of a statement.
#[derive(Debug, Clone, Copy, PartialEq, Eq, Structural)]
pub enum Effect {
    Allow,
    Deny,
}

/// The token of an effect.
pub open spec fn effect_repr(e: Effect) -> Seq<char> {
    match e {
        Effect::Allow => "Allow"@,
        Effect::Deny => "Deny"@,
    }
}

/// The effect named by a token, if any.
pub open spec fn effect_from(s: Seq<char>) -> Option<Effect> {
    if s == "Allow"@ {
        Some(Effect::Allow)
    } else if s == "Deny"@ {
        Some(Effect::Deny)
    } else {
        None
    }
}

impl Effect {
    /// Parses an effect token.
    pub fn parse_from_string(s: &str) -> (r: Option<Effect>)
        ensures
            r == effect_from(s@),
    {
        if eq_str(s, "Allow") {
            Some(Effect::Allow)
        } else if eq_str(s, "Deny") {
            Some(Effect::Deny)
        } else {
            None
        }
    }

    /// The exact inverse of parsing.
    pub fn to_string_repr(&self) -> (r: String)
        ensures
            r@ == effect_repr(*self),
    {
        match self {
            Effect::Allow => crate::strings::str_owned("Allow"),
            Effect::Deny => crate::strings::str_owned("Deny"),
        }
    }
}

/// The known policy language version tags.
#[derive(Debug, Clone, Copy, PartialEq, Eq, Structural)]
pub enum Version {
    /// `2008-10-17`
    V2008,
    /// `2012-10-17`
    V2012,
}

/// The tag of a version.
pub open spec fn version_repr(v: Version) -> Seq<char> {
    match v {
        Version::V2008 => "2008-10-17"@,
        Version::V2012 => "2012-10-17"@,
    }
}

/// The version named by a tag, if any.
pub open spec fn version_from(s: Seq<char>) -> Option<Version> {
    if s == "2008-10-17"@ {
        Some(Version::V2008)
    } else if s == "2012-10-17"@ {
        Some(Version::V2012)
    } else {
        None
    }
}

impl Version {
    /// Parses a version tag; unknown tags are rejected by the caller with a
    /// document error.
    pub fn parse_from_string(s: &str) -> (r: Option<Version>)
        ensures
            r == version_from(s@),
    {
        if eq_str(s, "2008-10-17") {
            Some(Version::V2008)
        } else if eq_str(s, "2012-10-17") {
            Some(Version::V2012)
        } else {
            None
        }
    }

    /// The exact inverse of parsing.
    pub fn to_string_repr(&self) -> (r: String)
        ensures
            r@ == version_repr(*self),
    {
        match self {
            Version::V2008 => crate::strings::str_owned("2008-10-17"),
            Version::V2012 => crate::strings::str_owned("2012-10-17"),
        }
    }
}

/// The closed set of principal types that may key the object form of a
/// principal.
#[derive(Debug, Clone, Copy, PartialEq, Eq, Structural)]
pub enum PrincipalType {
    AWS,
    Federated,
    Service,
    CanonicalUser,
}

/// The key of a principal type.
pub open spec fn ptype_repr(t: PrincipalType) -> Seq<char> {
    match t {
        PrincipalType::AWS => "AWS"@,
        PrincipalType::Federated => "Federated"@,
        PrincipalType::Service => "Service"@,
        PrincipalType::CanonicalUser => "CanonicalUser"@,
    }
}

/// The principal type named by a key, if any.
pub open spec fn ptype_from(s: Seq<char>) -> Option<PrincipalType> {
    if s == "AWS"@ {
        Some(PrincipalType::AWS)
    } else if s == "Federated"@ {
        Some(PrincipalType::Federated)
    } else if s == "Service"@ {
        Some(PrincipalType::Service)
    } else if s == "CanonicalUser"@ {
        Some(PrincipalType::CanonicalUser)
    } else {
        None
    }
}

impl PrincipalType {
    /// Parses a principal-type key; unrecognized keys are a hard error at
    /// the caller.
    pub fn parse_from_string(s: &str) -> (r: Option<PrincipalType>)
        ensures
            r == ptype_from(s@),
    {
        if eq_str(s, "AWS") {
            Some(PrincipalType::AWS)
        } else if eq_str(s, "Federated") {
            Some(PrincipalType::Federated)
        } else if eq_str(s, "Service") {
            Some(PrincipalType::Service)
        } else if eq_str(s, "CanonicalUser") {
            Some(PrincipalType::CanonicalUser)
        } else {
            None
        }
    }

    /// The exact inverse of parsing.
    pub fn to_string_repr(&self) -> (r: String)
        ensures
            r@ == ptype_repr(*self),
    {
        match self {
            PrincipalType::AWS => crate::strings::str_owned("AWS"),
            PrincipalType::Federated => crate::strings::str_owned("Federated"),
            PrincipalType::Service => crate::strings::str_owned("Service"),
            PrincipalType::CanonicalUser => crate::strings::str_owned("CanonicalUser"),
        }
    }
}

/// The closed set of global condition operators.
#[derive(Debug, Clone, Copy, PartialEq, Eq, Structural)]
pub enum GlobalConditionOperator {
    StringEquals,
    StringNotEquals,
    StringEqualsIgnoreCase,
    StringNotEqualsIgnoreCase,
    StringLike,
    StringNotLike,
    NumericEquals,
    NumericNotEquals,
    NumericLessThan,
    NumericLessThanEquals,
    NumericGreaterThan,
    NumericGreaterThanEquals,
    DateEquals,
    DateNotEquals,
    DateLessThan,
    DateLessThanEquals,
    DateGreaterThan,
    DateGreaterThanEquals,
    Bool,
    BinaryEquals,
    IpAddress,
    NotIpAddress,
    ArnEquals,
    ArnLike,
    ArnNotEquals,
    ArnNotLike,
    Null,
}

/// The key of a condition operator.
pub open spec fn op_repr(op: GlobalConditionOperator) -> Seq<char> {
    match op {
        GlobalConditionOperator::StringEquals => "StringEquals"@,
        GlobalConditionOperator::StringNotEquals => "StringNotEquals"@,
        GlobalConditionOperator::StringEqualsIgnoreCase => "StringEqualsIgnoreCase"@,
        GlobalConditionOperator::StringNotEqualsIgnoreCase => "StringNotEqualsIgnoreCase"@,
        GlobalConditionOperator::StringLike => "StringLike"@,
        GlobalConditionOperator::StringNotLike => "StringNotLike"@,
        GlobalConditionOperator::NumericEquals => "NumericEquals"@,
        GlobalConditionOperator::NumericNotEquals => "NumericNotEquals"@,
        GlobalConditionOperator::NumericLessThan => "NumericLessThan"@,
        GlobalConditionOperator::NumericLessThanEquals => "NumericLessThanEquals"@,
        GlobalConditionOperator::NumericGreaterThan => "NumericGreaterThan"@,
        GlobalConditionOperator::NumericGreaterThanEquals => "NumericGreaterThanEquals"@,
        GlobalConditionOperator::DateEquals => "DateEquals"@,
        GlobalConditionOperator::DateNotEquals => "DateNotEquals"@,
        GlobalConditionOperator::DateLessThan => "DateLessThan"@,
        GlobalConditionOperator::DateLessThanEquals => "DateLessThanEquals"@,
        GlobalConditionOperator::DateGreaterThan => "DateGreaterThan"@,
        GlobalConditionOperator::DateGreaterThanEquals => "DateGreaterThanEquals"@,
        GlobalConditionOperator::Bool => "Bool"@,
        GlobalConditionOperator::BinaryEquals => "BinaryEquals"@,
        GlobalConditionOperator::IpAddress => "IpAddress"@,
        GlobalConditionOperator::NotIpAddress => "NotIpAddress"@,
        GlobalConditionOperator::ArnEquals => "ArnEquals"@,
        GlobalConditionOperator::ArnLike => "ArnLike"@,
        GlobalConditionOperator::ArnNotEquals => "ArnNotEquals"@,
        GlobalConditionOperator::ArnNotLike => "ArnNotLike"@,
        GlobalConditionOperator::Null => "Null"@,
    }
}

/// The condition operator named by a key, if any.
pub open spec fn op_from(s: Seq<char>) -> Option<GlobalConditionOperator> {
    if s == "StringEquals"@ {
        Some(GlobalConditionOperator::StringEquals)
    } else if s == "StringNotEquals"@ {
        Some(GlobalConditionOperator::StringNotEquals)
    } else if s == "StringEqualsIgnoreCase"@ {
        Some(GlobalConditionOperator::StringEqualsIgnoreCase)
    } else if s == "StringNotEqualsIgnoreCase"@ {
        Some(GlobalConditionOperator::StringNotEqualsIgnoreCase)
    } else if s == "StringLike"@ {
        Some(GlobalConditionOperator::StringLike)
    } else if s == "StringNotLike"@ {
        Some(GlobalConditionOperator::StringNotLike)
    } else if s == "NumericEquals"@ {
        Some(GlobalConditionOperator::NumericEquals)
    } else if s == "NumericNotEquals"@ {
        Some(GlobalConditionOperator::NumericNotEquals)
    } else if s == "NumericLessThan"@ {
        Some(GlobalConditionOperator::NumericLessThan)
    } else if s == "NumericLessThanEquals"@ {
        Some(GlobalConditionOperator::NumericLessThanEquals)
    } else if s == "NumericGreaterThan"@ {
        Some(GlobalConditionOperator::NumericGreaterThan)
    } else if s == "NumericGreaterThanEquals"@ {
        Some(GlobalConditionOperator::NumericGreaterThanEquals)
    } else if s == "DateEquals"@ {
        Some(GlobalConditionOperator::DateEquals)
    } else if s == "DateNotEquals"@ {
        Some(GlobalConditionOperator::DateNotEquals)
    } else if s == "DateLessThan"@ {
        Some(GlobalConditionOperator::DateLessThan)
    } else if s == "DateLessThanEquals"@ {
        Some(GlobalConditionOperator::DateLessThanEquals)
    } else if s == "DateGreaterThan"@ {
        Some(GlobalConditionOperator::DateGreaterThan)
    } else if s == "DateGreaterThanEquals"@ {
        Some(GlobalConditionOperator::DateGreaterThanEquals)
    } else if s == "Bool"@ {
        Some(GlobalConditionOperator::Bool)
    } else if s == "BinaryEquals"@ {
        Some(GlobalConditionOperator::BinaryEquals)
    } else if s == "IpAddress"@ {
        Some(GlobalConditionOperator::IpAddress)
    } else if s == "NotIpAddress"@ {
        Some(GlobalConditionOperator::NotIpAddress)
    } else if s == "ArnEquals"@ {
        Some(GlobalConditionOperator::ArnEquals)
    } else if s == "ArnLike"@ {
        Some(GlobalConditionOperator::ArnLike)
    } else if s == "ArnNotEquals"@ {
        Some(GlobalConditionOperator::ArnNotEquals)
    } else if s == "ArnNotLike"@ {
        Some(GlobalConditionOperator::ArnNotLike)
    } else if s == "Null"@ {
        Some(GlobalConditionOperator::Null)
    } else {
        None
    }
}

impl GlobalConditionOperator {
    /// Parses a condition-operator key; unrecognized keys are a hard error
    /// at the caller.
    pub fn parse_from_string(s: &str) -> (r: Option<GlobalConditionOperator>)
        ensures
            r == op_from(s@),
    {
        if eq_str(s, "StringEquals") {
            Some(GlobalConditionOperator::StringEquals)
        } else if eq_str(s, "StringNotEquals") {
            Some(GlobalConditionOperator::StringNotEquals)
        } else if eq_str(s, "StringEqualsIgnoreCase") {
            Some(GlobalConditionOperator::StringEqualsIgnoreCase)
        } else if eq_str(s, "StringNotEqualsIgnoreCase") {
            Some(GlobalConditionOperator::StringNotEqualsIgnoreCase)
        } else if eq_str(s, "StringLike") {
            Some(GlobalConditionOperator::StringLike)
        } else if eq_str(s, "StringNotLike") {
            Some(GlobalConditionOperator::StringNotLike)
        } else if eq_str(s, "NumericEquals") {
            Some(GlobalConditionOperator::NumericEquals)
        } else if eq_str(s, "NumericNotEquals") {
            Some(GlobalConditionOperator::NumericNotEquals)
        } else if eq_str(s, "NumericLessThan") {
            Some(GlobalConditionOperator::NumericLessThan)
        } else if eq_str(s, "NumericLessThanEquals") {
            Some(GlobalConditionOperator::NumericLessThanEquals)
        } else if eq_str(s, "NumericGreaterThan") {
            Some(GlobalConditionOperator::NumericGreaterThan)
        } else if eq_str(s, "NumericGreaterThanEquals") {
            Some(GlobalConditionOperator::NumericGreaterThanEquals)
        } else if eq_str(s, "DateEquals") {
            Some(GlobalConditionOperator::DateEquals)
        } else if eq_str(s, "DateNotEquals") {
            Some(GlobalConditionOperator::DateNotEquals)
        } else if eq_str(s, "DateLessThan") {
            Some(GlobalConditionOperator::DateLessThan)
        } else if eq_str(s, "DateLessThanEquals") {
            Some(GlobalConditionOperator::DateLessThanEquals)
        } else if eq_str(s, "DateGreaterThan") {
            Some(GlobalConditionOperator::DateGreaterThan)
        } else if eq_str(s, "DateGreaterThanEquals") {
            Some(GlobalConditionOperator::DateGreaterThanEquals)
        } else if eq_str(s, "Bool") {
            Some(GlobalConditionOperator::Bool)
        } else if eq_str(s, "BinaryEquals") {
            Some(GlobalConditionOperator::BinaryEquals)
        } else if eq_str(s, "IpAddress") {
            Some(GlobalConditionOperator::IpAddress)
        } else if eq_str(s, "NotIpAddress") {
            Some(GlobalConditionOperator::NotIpAddress)
        } else if eq_str(s, "ArnEquals") {
            Some(GlobalConditionOperator::ArnEquals)
        } else if eq_str(s, "ArnLike") {
            Some(GlobalConditionOperator::ArnLike)
        } else if eq_str(s, "ArnNotEquals") {
            Some(GlobalConditionOperator::ArnNotEquals)
        } else if eq_str(s, "ArnNotLike") {
            Some(GlobalConditionOperator::ArnNotLike)
        } else if eq_str(s, "Null") {
            Some(GlobalConditionOperator::Null)
        } else {
            None
        }
    }

    /// The exact inverse of parsing.
    pub fn to_string_repr(&self) -> (r: String)
        ensures
            r@ == op_repr(*self),
    {
        match self {
            GlobalConditionOperator::StringEquals => crate::strings::str_owned("StringEquals"),
            GlobalConditionOperator::StringNotEquals => crate::strings::str_owned("StringNotEquals"),
            GlobalConditionOperator::StringEqualsIgnoreCase => crate::strings::str_owned(
                "StringEqualsIgnoreCase",
            ),
            GlobalConditionOperator::StringNotEqualsIgnoreCase => crate::strings::str_owned(
                "StringNotEqualsIgnoreCase",
            ),
            GlobalConditionOperator::StringLike => crate::strings::str_owned("StringLike"),
            GlobalConditionOperator::StringNotLike => crate::strings::str_owned("StringNotLike"),
            GlobalConditionOperator::NumericEquals => crate::strings::str_owned("NumericEquals"),
            GlobalConditionOperator::NumericNotEquals => crate::strings::str_owned(
                "NumericNotEquals",
            ),
            GlobalConditionOperator::NumericLessThan => crate::strings::str_owned("NumericLessThan"),
            GlobalConditionOperator::NumericLessThanEquals => crate::strings::str_owned(
                "NumericLessThanEquals",
            ),
            GlobalConditionOperator::NumericGreaterThan => crate::strings::str_owned(
                "NumericGreaterThan",
            ),
            GlobalConditionOperator::NumericGreaterThanEquals => crate::strings::str_owned(
                "NumericGreaterThanEquals",
            ),
            GlobalConditionOperator::DateEquals => crate::strings::str_owned("DateEquals"),
            GlobalConditionOperator::DateNotEquals => crate::strings::str_owned("DateNotEquals"),
            GlobalConditionOperator::DateLessThan => crate::strings::str_owned("DateLessThan"),
            GlobalConditionOperator::DateLessThanEquals => crate::strings::str_owned(
                "DateLessThanEquals",
            ),
            GlobalConditionOperator::DateGreaterThan => crate::strings::str_owned("DateGreaterThan"),
            GlobalConditionOperator::DateGreaterThanEquals => crate::strings::str_owned(
                "DateGreaterThanEquals",
            ),
            GlobalConditionOperator::Bool => crate::strings::str_owned("Bool"),
            GlobalConditionOperator::BinaryEquals => crate::strings::str_owned("BinaryEquals"),
            GlobalConditionOperator::IpAddress => crate::strings::str_owned("IpAddress"),
            GlobalConditionOperator::NotIpAddress => crate::strings::str_owned("NotIpAddress"),
            GlobalConditionOperator::ArnEquals => crate::strings::str_owned("ArnEquals"),
            GlobalConditionOperator::ArnLike => crate::strings::str_owned("ArnLike"),
            GlobalConditionOperator::ArnNotEquals => crate::strings::str_owned("ArnNotEquals"),
            GlobalConditionOperator::ArnNotLike => crate::strings::str_owned("ArnNotLike"),
            GlobalConditionOperator::Null => crate::strings::str_owned("Null"),
        }
    }
}


impl View for Effect {
    type V = Effect;

    open spec fn view(&self) -> Effect {
        *self
    }
}

impl DeepView for Effect {
    type V = Effect;

    open spec fn deep_view(&self) -> Effect {
        *self
    }
}

impl View for Version {
    type V = Version;

    open spec fn view(&self) -> Version {
        *self
    }
}

impl DeepView for Version {
    type V = Version;

    open spec fn deep_view(&self) -> Version {
        *self
    }
}

impl View for PrincipalType {
    type V = PrincipalType;

    open spec fn view(&self) -> PrincipalType {
        *self
    }
}

impl DeepView for PrincipalType {
    type V = PrincipalType;

    open spec fn deep_view(&self) -> PrincipalType {
        *self
    }
}

impl View for GlobalConditionOperator {
    type V = GlobalConditionOperator;

    open spec fn view(&self) -> GlobalConditionOperator {
        *self
    }
}

impl DeepView for GlobalConditionOperator {
    type V = GlobalConditionOperator;

    open spec fn deep_view(&self) -> GlobalConditionOperator {
        *self
    }
}

} // verus!
