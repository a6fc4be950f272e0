//! What the tokens of a document mean to the parser.

use vstd::prelude::*;
use crate::text::same_text;
use crate::xml::change::ChangeAction;
use crate::xml::error::{ProtocolError, ProtocolErrorView};
use crate::xml::reader::{
    attribute_list, attribute_views, raw_attributes, unescape, unescaped, RawAttributeView,
    TokenView, XmlToken,
};

verus! {

/// The three text fields of a change.
#[derive(Clone, Copy, Debug, PartialEq, Eq, Structural)]
pub enum Field {
    Description,
    Search,
    Content,
}

/// What a token means to the parser.
#[derive(Debug, PartialEq, Eq)]
pub enum ParseEvent {
    /// A `file` element opens, with its path and action.
    FileOpened { path: String, action: ChangeAction },
    /// A `change` element opens.
    ChangeOpened,
    /// One of the field elements opens.
    FieldOpened(Field),
    /// A `file` element closes.
    FileClosed,
    /// A `change` element closes.
    ChangeClosed,
    /// One of the field elements closes.
    FieldClosed(Field),
    /// Character data, references resolved.
    Text(String),
    /// Anything else; it changes nothing.
    Other,
}

/// A `ParseEvent` as plain values.
pub enum ParseEventView {
    FileOpened { path: Seq<char>, action: ChangeAction },
    ChangeOpened,
    FieldOpened(Field),
    FileClosed,
    ChangeClosed,
    FieldClosed(Field),
    Text(Seq<char>),
    Other,
}

impl View for ParseEvent {
    type V = ParseEventView;

    open spec fn view(&self) -> ParseEventView {
        match self {
            ParseEvent::FileOpened { path, action } => ParseEventView::FileOpened {
                path: path@,
                action: *action,
            },
            ParseEvent::ChangeOpened => ParseEventView::ChangeOpened,
            ParseEvent::FieldOpened(f) => ParseEventView::FieldOpened(*f),
            ParseEvent::FileClosed => ParseEventView::FileClosed,
            ParseEvent::ChangeClosed => ParseEventView::ChangeClosed,
            ParseEvent::FieldClosed(f) => ParseEventView::FieldClosed(*f),
            ParseEvent::Text(t) => ParseEventView::Text(t@),
            ParseEvent::Other => ParseEventView::Other,
        }
    }
}

/// The views of a sequence of events.
pub open spec fn event_views(s: Seq<ParseEvent>) -> Seq<ParseEventView> {
    s.map_values(|e: ParseEvent| e@)
}

/// The action that `value` names.
pub open spec fn action_named(value: Seq<char>) -> Option<ChangeAction> {
    if value == "create"@ {
        Some(ChangeAction::Create)
    } else if value == "rewrite"@ {
        Some(ChangeAction::Rewrite)
    } else if value == "modify"@ {
        Some(ChangeAction::Modify)
    } else if value == "delete"@ {
        Some(ChangeAction::Delete)
    } else {
        None
    }
}

/// The action that `value` names: one of `create`, `rewrite`, `modify` and
/// `delete`, in lower case.
pub fn parse_action(value: &str) -> (r: Option<ChangeAction>)
    ensures
        r == action_named(value@),
{
    if same_text(value, "create") {
        Some(ChangeAction::Create)
    } else if same_text(value, "rewrite") {
        Some(ChangeAction::Rewrite)
    } else if same_text(value, "modify") {
        Some(ChangeAction::Modify)
    } else if same_text(value, "delete") {
        Some(ChangeAction::Delete)
    } else {
        None
    }
}

/// The view of an event or of the error in its place.
pub open spec fn event_result_view(r: Result<ParseEvent, ProtocolError>) -> Result<
    ParseEventView,
    ProtocolErrorView,
> {
    match r {
        Ok(e) => Ok(e@),
        Err(e) => Err(e@),
    }
}

/// An attribute of a `file` element, its value with references resolved.
#[derive(Debug, PartialEq, Eq)]
pub enum FileAttribute {
    /// The attribute is malformed, or its key is given a second time.
    Malformed,
    /// A reference in the value cannot be resolved.
    Unresolved,
    /// A key and its value.
    Given { key: String, value: String },
}

/// A `FileAttribute` as plain values.
pub enum FileAttributeView {
    Malformed,
    Unresolved,
    Given { key: Seq<char>, value: Seq<char> },
}

impl View for FileAttribute {
    type V = FileAttributeView;

    open spec fn view(&self) -> FileAttributeView {
        match self {
            FileAttribute::Malformed => FileAttributeView::Malformed,
            FileAttribute::Unresolved => FileAttributeView::Unresolved,
            FileAttribute::Given { key, value } => FileAttributeView::Given {
                key: key@,
                value: value@,
            },
        }
    }
}

/// The views of a sequence of attributes.
pub open spec fn file_attribute_views(s: Seq<FileAttribute>) -> Seq<FileAttributeView> {
    s.map_values(|a: FileAttribute| a@)
}

/// An attribute as the reader found it, with the references in its value
/// resolved.
pub open spec fn resolved(raw: Option<RawAttributeView>) -> FileAttributeView {
    match raw {
        None => FileAttributeView::Malformed,
        Some(a) => match unescaped(a.value) {
            None => FileAttributeView::Unresolved,
            Some(value) => FileAttributeView::Given { key: a.key, value },
        },
    }
}

/// The attributes that stand in the text after the name of a tag, in order,
/// with the references in their values resolved.
pub open spec fn file_attributes(attributes: Seq<char>) -> Seq<FileAttributeView> {
    attribute_list(attributes).map_values(|a: Option<RawAttributeView>| resolved(a))
}

/// The attributes that stand in the text after the name of a tag.
pub fn read_attributes(attributes: &str) -> (list: Vec<FileAttribute>)
    ensures
        file_attribute_views(list@) == file_attributes(attributes@),
{
    let raw = raw_attributes(attributes);
    let mut list: Vec<FileAttribute> = Vec::new();
    let mut i: usize = 0;
    while i < raw.len()
        invariant
            i <= raw.len(),
            attribute_views(raw@) == attribute_list(attributes@),
            file_attribute_views(list@) == file_attributes(attributes@).take(i as int),
        decreases raw.len() - i,
    {
        let ghost before = list@;
        let next = match &raw[i] {
            None => FileAttribute::Malformed,
            Some(a) => match unescape(a.value.as_str()) {
                None => FileAttribute::Unresolved,
                Some(value) => FileAttribute::Given { key: a.key.clone(), value },
            },
        };
        proof {
            assert(attribute_views(raw@)[i as int] == attribute_list(attributes@)[i as int]);
            assert(next@ == file_attributes(attributes@)[i as int]);
        }
        list.push(next);
        proof {
            assert(file_attribute_views(list@) =~= file_attribute_views(before).push(next@));
            assert(file_attributes(attributes@).take(i + 1) =~= file_attributes(
                attributes@,
            ).take(i as int).push(file_attributes(attributes@)[i as int]));
        }
        i += 1;
    }
    assert(file_attributes(attributes@).take(i as int) =~= file_attributes(attributes@));
    list
}

/// What the attributes `attrs` of a `file` element say, read in order after
/// `path` and `action` have been found so far. The first attribute that is
/// malformed, or holds a reference that cannot be resolved, or gives an
/// action that is none, decides; of a key given twice the last value
/// counts; `path` is empty where none is given, and an action must be
/// given.
pub open spec fn header_from(
    attrs: Seq<FileAttributeView>,
    path: Seq<char>,
    action: Option<ChangeAction>,
) -> Result<ParseEventView, ProtocolErrorView>
    decreases attrs.len(),
{
    if attrs.len() == 0 {
        match action {
            Some(action) => Ok(ParseEventView::FileOpened { path, action }),
            None => Err(ProtocolErrorView::MissingAction),
        }
    } else {
        match attrs[0] {
            FileAttributeView::Malformed => Err(ProtocolErrorView::Attribute),
            FileAttributeView::Unresolved => Err(ProtocolErrorView::AttributeValue),
            FileAttributeView::Given { key, value } => if key == "path"@ {
                header_from(attrs.skip(1), value, action)
            } else if key == "action"@ {
                match action_named(value) {
                    Some(named) => header_from(attrs.skip(1), path, Some(named)),
                    None => Err(ProtocolErrorView::InvalidAction(value)),
                }
            } else {
                header_from(attrs.skip(1), path, action)
            },
        }
    }
}

/// What the attributes of the opening tag of a `file` element say.
pub fn file_opening(attrs: &[FileAttribute]) -> (r: Result<ParseEvent, ProtocolError>)
    ensures
        event_result_view(r) == header_from(file_attribute_views(attrs@), Seq::empty(), None),
{
    let mut path = String::new();
    let mut action: Option<ChangeAction> = None;
    let mut i: usize = 0;
    assert(file_attribute_views(attrs@).skip(0) == file_attribute_views(attrs@));
    while i < attrs.len()
        invariant
            i <= attrs.len(),
            header_from(file_attribute_views(attrs@).skip(i as int), path@, action) == header_from(
                file_attribute_views(attrs@),
                Seq::empty(),
                None,
            ),
        decreases attrs.len() - i,
    {
        proof {
            let rest = file_attribute_views(attrs@).skip(i as int);
            assert(rest.skip(1) == file_attribute_views(attrs@).skip(i + 1));
            assert(rest[0] == attrs@[i as int]@);
        }
        match &attrs[i] {
            FileAttribute::Malformed => {
                return Err(ProtocolError::Attribute);
            },
            FileAttribute::Unresolved => {
                return Err(ProtocolError::AttributeValue);
            },
            FileAttribute::Given { key, value } => {
                if same_text(key.as_str(), "path") {
                    path = value.clone();
                } else if same_text(key.as_str(), "action") {
                    match parse_action(value.as_str()) {
                        Some(named) => {
                            action = Some(named);
                        },
                        None => {
                            return Err(ProtocolError::InvalidAction(value.clone()));
                        },
                    }
                }
            },
        }
        i += 1;
    }
    assert(file_attribute_views(attrs@).skip(i as int).len() == 0);
    match action {
        Some(action) => Ok(ParseEvent::FileOpened { path, action }),
        None => Err(ProtocolError::MissingAction),
    }
}

/// What the opening tag of a `file` element says, given the text after its
/// name.
pub fn file_header(attributes: &str) -> (r: Result<ParseEvent, ProtocolError>)
    ensures
        event_result_view(r) == header_from(file_attributes(attributes@), Seq::empty(), None),
{
    let attrs = read_attributes(attributes);
    file_opening(attrs.as_slice())
}

/// The field element that `name` names, if it names one.
pub open spec fn field_named(name: Seq<char>) -> Option<Field> {
    if name == "description"@ {
        Some(Field::Description)
    } else if name == "search"@ {
        Some(Field::Search)
    } else if name == "content"@ {
        Some(Field::Content)
    } else {
        None
    }
}

/// The field element that `name` names, if it names one.
pub fn parse_field(name: &str) -> (r: Option<Field>)
    ensures
        r == field_named(name@),
{
    if same_text(name, "description") {
        Some(Field::Description)
    } else if same_text(name, "search") {
        Some(Field::Search)
    } else if same_text(name, "content") {
        Some(Field::Content)
    } else {
        None
    }
}

/// What a token means to the parser, or why the document is refused at it.
/// Names are taken as they are written; those that the protocol does not
/// know, and the end of the document, change nothing.
pub open spec fn event_of(token: TokenView) -> Result<ParseEventView, ProtocolErrorView> {
    match token {
        TokenView::Start { name, attributes } => if name == "file"@ {
            header_from(file_attributes(attributes), Seq::empty(), None)
        } else if name == "change"@ {
            Ok(ParseEventView::ChangeOpened)
        } else {
            match field_named(name) {
                Some(f) => Ok(ParseEventView::FieldOpened(f)),
                None => Ok(ParseEventView::Other),
            }
        },
        TokenView::End { name } => if name == "file"@ {
            Ok(ParseEventView::FileClosed)
        } else if name == "change"@ {
            Ok(ParseEventView::ChangeClosed)
        } else {
            match field_named(name) {
                Some(f) => Ok(ParseEventView::FieldClosed(f)),
                None => Ok(ParseEventView::Other),
            }
        },
        TokenView::Text { raw } => match unescaped(raw) {
            Some(text) => Ok(ParseEventView::Text(text)),
            None => Err(ProtocolErrorView::Text),
        },
        TokenView::Eof => Ok(ParseEventView::Other),
        TokenView::Other => Ok(ParseEventView::Other),
        TokenView::Invalid { message } => Err(ProtocolErrorView::Markup(message)),
    }
}

/// What a token means to the parser, or why the document is refused at it.
pub fn digest(token: &XmlToken) -> (r: Result<ParseEvent, ProtocolError>)
    ensures
        event_result_view(r) == event_of(token@),
{
    match token {
        XmlToken::Start { name, attributes } => {
            if same_text(name.as_str(), "file") {
                file_header(attributes.as_str())
            } else if same_text(name.as_str(), "change") {
                Ok(ParseEvent::ChangeOpened)
            } else {
                match parse_field(name.as_str()) {
                    Some(f) => Ok(ParseEvent::FieldOpened(f)),
                    None => Ok(ParseEvent::Other),
                }
            }
        },
        XmlToken::End { name } => {
            if same_text(name.as_str(), "file") {
                Ok(ParseEvent::FileClosed)
            } else if same_text(name.as_str(), "change") {
                Ok(ParseEvent::ChangeClosed)
            } else {
                match parse_field(name.as_str()) {
                    Some(f) => Ok(ParseEvent::FieldClosed(f)),
                    None => Ok(ParseEvent::Other),
                }
            }
        },
        XmlToken::Text { raw } => {
            match unescape(raw.as_str()) {
                Some(text) => Ok(ParseEvent::Text(text)),
                None => Err(ProtocolError::Text),
            }
        },
        XmlToken::Eof => Ok(ParseEvent::Other),
        XmlToken::Other => Ok(ParseEvent::Other),
        XmlToken::Invalid { message } => Err(ProtocolError::Markup(message.clone())),
    }
}

} // verus!
