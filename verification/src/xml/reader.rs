//! The tokens of a document, as `quick_xml` reads them.

use vstd::prelude::*;
use quick_xml::events::attributes::Attributes;
use quick_xml::events::Event;
use quick_xml::reader::Reader;

verus! {

/// One token of a document.
#[derive(Debug, PartialEq, Eq)]
pub enum XmlToken {
    /// An opening tag: its name, and the text after the name. A self-closing
    /// tag comes as an opening tag and, next, a closing tag of its name.
    Start { name: String, attributes: String },
    /// A closing tag.
    End { name: String },
    /// Character data between tags, trimmed, references unresolved.
    Text { raw: String },
    /// The end of the document.
    Eof,
    /// Anything else: a comment, a declaration, a section of character data.
    Other,
    /// The document is malformed here; holds the reader's account of it.
    Invalid { message: String },
}

/// An `XmlToken` as plain sequences of characters.
pub enum TokenView {
    Start { name: Seq<char>, attributes: Seq<char> },
    End { name: Seq<char> },
    Text { raw: Seq<char> },
    Eof,
    Other,
    Invalid { message: Seq<char> },
}

impl View for XmlToken {
    type V = TokenView;

    open spec fn view(&self) -> TokenView {
        match self {
            XmlToken::Start { name, attributes } => TokenView::Start {
                name: name@,
                attributes: attributes@,
            },
            XmlToken::End { name } => TokenView::End { name: name@ },
            XmlToken::Text { raw } => TokenView::Text { raw: raw@ },
            XmlToken::Eof => TokenView::Eof,
            XmlToken::Other => TokenView::Other,
            XmlToken::Invalid { message } => TokenView::Invalid { message: message@ },
        }
    }
}

impl TokenView {
    /// Nothing is read after this token.
    pub open spec fn is_last(self) -> bool {
        self is Eof || self is Invalid
    }
}

/// A token stream is complete where it is not empty and its last token, and
/// no other, ends the reading.
pub open spec fn complete(tokens: Seq<TokenView>) -> bool {
    &&& tokens.len() > 0
    &&& tokens.last().is_last()
    &&& forall|i: int| 0 <= i < tokens.len() - 1 ==> !(#[trigger] tokens[i]).is_last()
}

/// One attribute of a tag: its key and its value, references unresolved.
#[derive(Debug, PartialEq, Eq)]
pub struct RawAttribute {
    pub key: String,
    pub value: String,
}

/// A `RawAttribute` as plain sequences of characters.
pub struct RawAttributeView {
    pub key: Seq<char>,
    pub value: Seq<char>,
}

impl View for RawAttribute {
    type V = RawAttributeView;

    open spec fn view(&self) -> RawAttributeView {
        RawAttributeView { key: self.key@, value: self.value@ }
    }
}

/// The views of a list of attributes; `None` stands for a malformed one.
pub open spec fn attribute_views(s: Seq<Option<RawAttribute>>) -> Seq<Option<RawAttributeView>> {
    s.map_values(
        |a: Option<RawAttribute>|
            match a {
                Some(a) => Some(a@),
                None => None,
            },
    )
}

/// `quick_xml::reader::Reader`: it is carried from one reading to the next,
/// and nothing inside it is looked at.
#[verifier::external_type_specification]
#[verifier::external_body]
#[verifier::reject_recursive_types(R)]
pub struct ExReader<R>(Reader<R>);

/// The tokens that a reader yields for `text` which trims text and gives a
/// self-closing tag as an opening and a closing tag, up to and including
/// the first end of document or malformed place.
pub uninterp spec fn document_tokens(text: Seq<char>) -> Seq<TokenView>;

/// The tokens that `reader` has yet to yield, up to and including the first
/// end of document or malformed place.
pub uninterp spec fn pending_tokens(reader: Reader<&[u8]>) -> Seq<TokenView>;

/// The attributes that stand in the text after a tag's name, in order.
pub uninterp spec fn attribute_list(attributes: Seq<char>) -> Seq<Option<RawAttributeView>>;

/// `raw` with its character and entity references resolved, or `None` where
/// one of them cannot be resolved.
pub uninterp spec fn unescaped(raw: Seq<char>) -> Option<Seq<char>>;

/// `Reader::from_str`, with `Config::trim_text` and
/// `Config::expand_empty_elements` switched on through `Reader::config_mut`:
/// a reader at the start of `xml`, which gives a self-closing tag as an
/// opening tag followed by a closing tag. What it has yet to yield is what
/// the document holds; reading a text of finite length ends, with the end
/// of the document or at a malformed place.
#[verifier::external_body]
pub(crate) fn open_reader<'a>(xml: &'a str) -> (reader: Reader<&'a [u8]>)
    ensures
        pending_tokens(reader) == document_tokens(xml@),
        complete(pending_tokens(reader)),
{
    let mut reader = Reader::from_str(xml);
    reader.config_mut().trim_text(true);
    reader.config_mut().expand_empty_elements = true;
    reader
}

/// `Reader::read_event_into`: the next token, which leaves the reader. An
/// opening tag gives its name (`BytesStart::name`) and the text after it
/// (`BytesStart::attributes_raw`), a closing tag its name, character data
/// its bytes; a comment, a declaration and the like are all `Other`, and an
/// error gives its own words. A self-closing tag does not come as such from
/// a reader that gives it as an opening and a closing tag. The bytes of a
/// token are handed out as a string; they are UTF-8, as the document is. Of
/// what the reader holds after a token that ends the reading, nothing is
/// said.
#[verifier::external_body]
pub(crate) fn next_token(reader: &mut Reader<&[u8]>) -> (token: XmlToken)
    ensures
        pending_tokens(*old(reader)).len() > 0 ==> token@ == pending_tokens(*old(reader))[0],
        pending_tokens(*old(reader)).len() > 0 && !token@.is_last() ==> pending_tokens(
            *final(reader),
        ) == pending_tokens(*old(reader)).skip(1),
{
    let mut buf = Vec::new();
    match reader.read_event_into(&mut buf) {
        Ok(Event::Start(e)) => XmlToken::Start {
            name: String::from_utf8_lossy(e.name().as_ref()).into_owned(),
            attributes: String::from_utf8_lossy(e.attributes_raw()).into_owned(),
        },
        Ok(Event::End(e)) => XmlToken::End {
            name: String::from_utf8_lossy(e.name().as_ref()).into_owned(),
        },
        Ok(Event::Text(e)) => XmlToken::Text { raw: String::from_utf8_lossy(&e).into_owned() },
        Ok(Event::Eof) => XmlToken::Eof,
        Ok(_) => XmlToken::Other,
        Err(e) => XmlToken::Invalid { message: e.to_string() },
    }
}

/// `Attributes::new` and its `Iterator::next`: the attributes in the text
/// after a tag's name, in order, each with its key and its value as they
/// are written, `None` for each malformed or repeated one.
#[verifier::external_body]
pub(crate) fn raw_attributes(attributes: &str) -> (list: Vec<Option<RawAttribute>>)
    ensures
        attribute_views(list@) == attribute_list(attributes@),
{
    Attributes::new(attributes, 0).map(
        |a| a.ok().map(
            |a| RawAttribute {
                key: String::from_utf8_lossy(a.key.as_ref()).into_owned(),
                value: String::from_utf8_lossy(&a.value).into_owned(),
            },
        ),
    ).collect()
}

/// `quick_xml::escape::unescape`: `raw` with its character references and
/// the five predefined entity references resolved, or `None` where one
/// cannot be resolved. It is what `BytesText::unescape` and
/// `Attribute::decode_and_unescape_value` do to a text that is UTF-8.
#[verifier::external_body]
pub(crate) fn unescape(raw: &str) -> (r: Option<String>)
    ensures
        match r {
            Some(s) => unescaped(raw@) == Some(s@),
            None => unescaped(raw@) is None,
        },
{
    quick_xml::escape::unescape(raw).ok().map(|s| s.into_owned())
}

} // verus!
