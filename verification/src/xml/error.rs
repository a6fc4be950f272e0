//! Why a document is refused.

use vstd::prelude::*;
use vstd::string::StringExecFns;

verus! {

/// Why a document is refused.
#[derive(Debug, PartialEq, Eq)]
pub enum ProtocolError {
    /// The markup is malformed; holds the reader's account of it.
    Markup(String),
    /// An attribute of a `file` element is malformed or repeated.
    Attribute,
    /// A reference in an attribute value of a `file` element cannot be resolved.
    AttributeValue,
    /// A `file` element has no `action` attribute.
    MissingAction,
    /// The `action` attribute holds none of the four actions; holds its value.
    InvalidAction(String),
    /// A reference in character data cannot be resolved.
    Text,
}

/// A `ProtocolError` as plain values.
pub enum ProtocolErrorView {
    Markup(Seq<char>),
    Attribute,
    AttributeValue,
    MissingAction,
    InvalidAction(Seq<char>),
    Text,
}

impl View for ProtocolError {
    type V = ProtocolErrorView;

    open spec fn view(&self) -> ProtocolErrorView {
        match self {
            ProtocolError::Markup(m) => ProtocolErrorView::Markup(m@),
            ProtocolError::Attribute => ProtocolErrorView::Attribute,
            ProtocolError::AttributeValue => ProtocolErrorView::AttributeValue,
            ProtocolError::MissingAction => ProtocolErrorView::MissingAction,
            ProtocolError::InvalidAction(v) => ProtocolErrorView::InvalidAction(v@),
            ProtocolError::Text => ProtocolErrorView::Text,
        }
    }
}

impl ProtocolErrorView {
    /// The error in words.
    pub open spec fn message(self) -> Seq<char> {
        match self {
            ProtocolErrorView::Markup(m) => "Error parsing XML: "@ + m,
            ProtocolErrorView::Attribute => "Invalid XML attribute"@,
            ProtocolErrorView::AttributeValue => "Failed to decode attribute value"@,
            ProtocolErrorView::MissingAction => "Missing action"@,
            ProtocolErrorView::InvalidAction(v) => "Invalid action: "@ + v,
            ProtocolErrorView::Text => "Failed to unescape XML text"@,
        }
    }
}

impl ProtocolError {
    /// The error in words. An invalid action is named.
    pub fn message(&self) -> (r: String)
        ensures
            r@ == self@.message(),
    {
        match self {
            ProtocolError::Markup(m) => String::from_str("Error parsing XML: ").concat(
                m.as_str(),
            ),
            ProtocolError::Attribute => String::from_str("Invalid XML attribute"),
            ProtocolError::AttributeValue => String::from_str("Failed to decode attribute value"),
            ProtocolError::MissingAction => String::from_str("Missing action"),
            ProtocolError::InvalidAction(v) => String::from_str("Invalid action: ").concat(
                v.as_str(),
            ),
            ProtocolError::Text => String::from_str("Failed to unescape XML text"),
        }
    }
}

} // verus!
