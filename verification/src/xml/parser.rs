//! From the tokens of a document to the file changes it describes.

use vstd::prelude::*;
use crate::xml::change::{
    change_views, file_change_views, Change, ChangeAction, ChangeView, FileChange,
    FileChangeView,
};
use crate::xml::error::{ProtocolError, ProtocolErrorView};
use crate::xml::event::{
    digest, event_of, event_views, Field, ParseEvent, ParseEventView,
};
use crate::xml::markers::{between_markers, extract_between_markers};
use crate::xml::reader::{
    complete, document_tokens, next_token, open_reader, pending_tokens, TokenView, XmlToken,
};

verus! {

/// What the parser holds between two events.
pub struct ParserState {
    files: Vec<FileChange>,
    file: Option<FileChange>,
    change: Option<Change>,
    in_change: bool,
    in_description: bool,
    in_search: bool,
    in_content: bool,
}

/// A `ParserState` as plain values.
pub struct ParserStateView {
    /// The file changes that are complete.
    pub files: Seq<FileChangeView>,
    /// The file change that is being built.
    pub file: Option<FileChangeView>,
    /// The change that is being built.
    pub change: Option<ChangeView>,
    pub in_change: bool,
    pub in_description: bool,
    pub in_search: bool,
    pub in_content: bool,
}

impl View for ParserState {
    type V = ParserStateView;

    closed spec fn view(&self) -> ParserStateView {
        ParserStateView {
            files: file_change_views(self.files@),
            file: match self.file {
                Some(f) => Some(f@),
                None => None,
            },
            change: match self.change {
                Some(c) => Some(c@),
                None => None,
            },
            in_change: self.in_change,
            in_description: self.in_description,
            in_search: self.in_search,
            in_content: self.in_content,
        }
    }
}

impl ParserStateView {
    /// The state before the first event.
    pub open spec fn initial() -> ParserStateView {
        ParserStateView {
            files: Seq::empty(),
            file: None,
            change: None,
            in_change: false,
            in_description: false,
            in_search: false,
            in_content: false,
        }
    }

    /// The state with the flag of `field` set to `open`.
    pub open spec fn with_field(self, field: Field, open: bool) -> ParserStateView {
        match field {
            Field::Description => ParserStateView { in_description: open, ..self },
            Field::Search => ParserStateView { in_search: open, ..self },
            Field::Content => ParserStateView { in_content: open, ..self },
        }
    }

    /// The change being built after character data `text` has come. The data
    /// goes to the description, else to the search text, else to the content,
    /// whichever element is open first in that order, inside a `change`
    /// element; search text and content are taken from between their markers.
    pub open spec fn with_text(self, text: Seq<char>) -> ParserStateView {
        match self.change {
            Some(c) if self.in_change => {
                if self.in_description {
                    ParserStateView { change: Some(ChangeView { description: text, ..c }), ..self }
                } else if self.in_search {
                    ParserStateView {
                        change: Some(ChangeView { search: Some(between_markers(text)), ..c }),
                        ..self
                    }
                } else if self.in_content {
                    ParserStateView {
                        change: Some(ChangeView { content: between_markers(text), ..c }),
                        ..self
                    }
                } else {
                    self
                }
            },
            _ => self,
        }
    }

    /// The state after `event`.
    pub open spec fn step(self, event: ParseEventView) -> ParserStateView {
        match event {
            ParseEventView::FileOpened { path, action } => ParserStateView {
                file: Some(FileChangeView { path, action, changes: Seq::empty() }),
                ..self
            },
            ParseEventView::ChangeOpened => ParserStateView {
                in_change: true,
                change: Some(ChangeView::empty()),
                ..self
            },
            ParseEventView::FieldOpened(f) => self.with_field(f, true),
            ParseEventView::FileClosed => match self.file {
                Some(f) => ParserStateView { files: self.files.push(f), file: None, ..self },
                None => self,
            },
            ParseEventView::ChangeClosed => ParserStateView {
                in_change: false,
                change: None,
                file: match (self.file, self.change) {
                    (Some(f), Some(c)) => Some(
                        FileChangeView { changes: f.changes.push(c), ..f },
                    ),
                    _ => self.file,
                },
                ..self
            },
            ParseEventView::FieldClosed(f) => self.with_field(f, false),
            ParseEventView::Text(t) => self.with_text(t),
            ParseEventView::Other => self,
        }
    }

    /// The state after all of `events`, in order.
    pub open spec fn run(self, events: Seq<ParseEventView>) -> ParserStateView
        decreases events.len(),
    {
        if events.len() == 0 {
            self
        } else {
            self.step(events[0]).run(events.skip(1))
        }
    }
}

impl ParserState {
    /// The state before the first event.
    pub fn new() -> (r: ParserState)
        ensures
            r@ == ParserStateView::initial(),
    {
        let r = ParserState {
            files: Vec::new(),
            file: None,
            change: None,
            in_change: false,
            in_description: false,
            in_search: false,
            in_content: false,
        };
        assert(r@.files =~= Seq::empty());
        r
    }

    /// Takes one event.
    pub fn accept(&mut self, event: &ParseEvent)
        ensures
            final(self)@ == old(self)@.step(event@),
    {
        match event {
            ParseEvent::FileOpened { path, action } => {
                let file = FileChange { path: path.clone(), action: *action, changes: Vec::new() };
                assert(file@.changes =~= Seq::empty());
                self.file = Some(file);
            },
            ParseEvent::ChangeOpened => {
                self.in_change = true;
                self.change = Some(Change::empty());
            },
            ParseEvent::FieldOpened(f) => {
                match f {
                    Field::Description => {
                        self.in_description = true;
                    },
                    Field::Search => {
                        self.in_search = true;
                    },
                    Field::Content => {
                        self.in_content = true;
                    },
                }
            },
            ParseEvent::FileClosed => {
                let ghost before = self.files@;
                match self.file.take() {
                    Some(f) => {
                        self.files.push(f);
                        assert(file_change_views(self.files@) =~= file_change_views(before).push(
                            f@,
                        ));
                    },
                    None => {},
                }
            },
            ParseEvent::ChangeClosed => {
                self.in_change = false;
                let change = self.change.take();
                let file = self.file.take();
                match file {
                    Some(mut f) => {
                        match change {
                            Some(c) => {
                                let ghost before = f.changes@;
                                f.changes.push(c);
                                assert(change_views(f.changes@) =~= change_views(before).push(c@));
                            },
                            None => {},
                        }
                        self.file = Some(f);
                    },
                    None => {},
                }
            },
            ParseEvent::FieldClosed(f) => {
                match f {
                    Field::Description => {
                        self.in_description = false;
                    },
                    Field::Search => {
                        self.in_search = false;
                    },
                    Field::Content => {
                        self.in_content = false;
                    },
                }
            },
            ParseEvent::Text(text) => {
                if self.in_change {
                    match self.change.take() {
                        Some(mut c) => {
                            if self.in_description {
                                c.description = text.clone();
                            } else if self.in_search {
                                c.search = extract_between_markers(text.as_str());
                            } else if self.in_content {
                                match extract_between_markers(text.as_str()) {
                                    Some(s) => {
                                        c.content = s;
                                    },
                                    None => {},
                                }
                            }
                            self.change = Some(c);
                        },
                        None => {},
                    }
                }
            },
            ParseEvent::Other => {},
        }
    }

    /// The file changes that are complete. One that is still being built is
    /// left out.
    pub fn finish(self) -> (files: Vec<FileChange>)
        ensures
            file_change_views(files@) == self@.files,
    {
        self.files
    }
}

/// What the tokens `tokens` describe to a parser in state `state`: the file
/// changes complete at the end of the document, or the error of the first
/// token that is refused.
pub open spec fn parse_from(state: ParserStateView, tokens: Seq<TokenView>) -> Result<
    Seq<FileChangeView>,
    ProtocolErrorView,
>
    decreases tokens.len(),
{
    if tokens.len() == 0 || tokens[0] is Eof {
        Ok(state.files)
    } else {
        match event_of(tokens[0]) {
            Ok(event) => parse_from(state.step(event), tokens.skip(1)),
            Err(e) => Err(e),
        }
    }
}

/// The view of a list of file changes or of the error in its place.
pub open spec fn parse_result_view(r: Result<Vec<FileChange>, ProtocolError>) -> Result<
    Seq<FileChangeView>,
    ProtocolErrorView,
> {
    match r {
        Ok(files) => Ok(file_change_views(files@)),
        Err(e) => Err(e@),
    }
}

/// Reads a document: the file changes it describes, in the order of their
/// closing tags, or why it is refused. A self-closing element is read as
/// one that opens and closes at once, so a self-closing `file` element is a
/// file change without changes. A `file` or `change` element that is still
/// open at the end of the document is left out.
pub fn parse_xml_diff(xml: &str) -> (r: Result<Vec<FileChange>, ProtocolError>)
    ensures
        parse_result_view(r) == parse_from(ParserStateView::initial(), document_tokens(xml@)),
{
    let mut reader = open_reader(xml);
    let mut state = ParserState::new();
    loop
        invariant
            complete(pending_tokens(reader)),
            parse_from(state@, pending_tokens(reader)) == parse_from(
                ParserStateView::initial(),
                document_tokens(xml@),
            ),
        decreases pending_tokens(reader).len(),
    {
        let ghost pending = pending_tokens(reader);
        let token = next_token(&mut reader);
        match token {
            XmlToken::Eof => {
                return Ok(state.finish());
            },
            _ => {
                match digest(&token) {
                    Err(e) => {
                        return Err(e);
                    },
                    Ok(event) => {
                        state.accept(&event);
                    },
                }
            },
        }
        proof {
            assert(token@ == pending[0]);
            assert(!pending[0].is_last());
            assert(pending.len() >= 2);
            let rest = pending.skip(1);
            assert(rest.last() == pending.last());
            assert forall|i: int| 0 <= i < rest.len() - 1 implies !(#[trigger] rest[i]).is_last() by {
                assert(rest[i] == pending[i + 1]);
            }
        }
    }
}

/// The file changes that a sequence of events describes.
pub fn collect_file_changes(events: &[ParseEvent]) -> (files: Vec<FileChange>)
    ensures
        file_change_views(files@) == ParserStateView::initial().run(event_views(events@)).files,
{
    let mut state = ParserState::new();
    let mut i: usize = 0;
    assert(event_views(events@).skip(0) == event_views(events@));
    while i < events.len()
        invariant
            i <= events.len(),
            state@.run(event_views(events@).skip(i as int)) == ParserStateView::initial().run(
                event_views(events@),
            ),
        decreases events.len() - i,
    {
        let ghost rest = event_views(events@).skip(i as int);
        assert(rest[0] == events@[i as int]@);
        assert(rest.skip(1) == event_views(events@).skip(i + 1));
        state.accept(&events[i]);
        i += 1;
    }
    state.finish()
}

/// The path and the action of a file change.
pub open spec fn header_of(file: FileChangeView) -> (Seq<char>, ChangeAction) {
    (file.path, file.action)
}

/// The paths and actions of a sequence of file changes.
pub open spec fn headers_of(files: Seq<FileChangeView>) -> Seq<(Seq<char>, ChangeAction)> {
    files.map_values(|f: FileChangeView| header_of(f))
}

/// The paths and actions of the `file` elements that open in `events`, in
/// order.
pub open spec fn opened_files(events: Seq<ParseEventView>) -> Seq<(Seq<char>, ChangeAction)>
    decreases events.len(),
{
    if events.len() == 0 {
        Seq::empty()
    } else {
        match events[0] {
            ParseEventView::FileOpened { path, action } => seq![(path, action)] + opened_files(
                events.skip(1),
            ),
            _ => opened_files(events.skip(1)),
        }
    }
}

/// Every `file` element of `events` closes, and none opens inside another;
/// `open` says whether one is open before the first event.
pub open spec fn files_closed(events: Seq<ParseEventView>, open: bool) -> bool
    decreases events.len(),
{
    if events.len() == 0 {
        !open
    } else {
        match events[0] {
            ParseEventView::FileOpened { .. } => !open && files_closed(events.skip(1), true),
            ParseEventView::FileClosed => files_closed(events.skip(1), false),
            _ => files_closed(events.skip(1), open),
        }
    }
}

/// The file change that is being built, as a sequence of none or one.
pub open spec fn open_header(state: ParserStateView) -> Seq<(Seq<char>, ChangeAction)> {
    match state.file {
        Some(f) => seq![header_of(f)],
        None => Seq::empty(),
    }
}

/// From any state, events whose `file` elements close one by one add one
/// file change for each of them, in order, and leave none open.
pub proof fn lemma_run_counts_files(state: ParserStateView, events: Seq<ParseEventView>)
    requires
        files_closed(events, state.file is Some),
    ensures
        headers_of(state.run(events).files) == headers_of(state.files) + open_header(state)
            + opened_files(events),
        state.run(events).file is None,
    decreases events.len(),
{
    if events.len() == 0 {
        assert(open_header(state) =~= Seq::empty());
        assert(headers_of(state.files) + open_header(state) + opened_files(events) =~= headers_of(
            state.files,
        ));
    } else {
        let next = state.step(events[0]);
        let rest = events.skip(1);
        lemma_run_counts_files(next, rest);
        match events[0] {
            ParseEventView::FileOpened { path, action } => {
                assert(headers_of(next.files) + open_header(next) + opened_files(rest)
                    =~= headers_of(state.files) + open_header(state) + opened_files(events));
            },
            ParseEventView::FileClosed => {
                match state.file {
                    Some(f) => {
                        assert(headers_of(next.files) =~= headers_of(state.files) + open_header(
                            state,
                        ));
                        assert(open_header(next) =~= Seq::empty());
                    },
                    None => {},
                }
                assert(headers_of(next.files) + open_header(next) + opened_files(rest)
                    =~= headers_of(state.files) + open_header(state) + opened_files(events));
            },
            ParseEventView::ChangeClosed => {
                assert(open_header(next) =~= open_header(state));
            },
            ParseEventView::FieldOpened(f) => {
                assert(next.file == state.file && next.files == state.files);
            },
            ParseEventView::FieldClosed(f) => {
                assert(next.file == state.file && next.files == state.files);
            },
            ParseEventView::Text(t) => {
                assert(next.file == state.file && next.files == state.files);
            },
            _ => {},
        }
    }
}

/// Events whose `file` elements close one by one give one file change for
/// each of them, in the order in which they open.
pub proof fn lemma_files_in_document_order(events: Seq<ParseEventView>)
    requires
        files_closed(events, false),
    ensures
        headers_of(ParserStateView::initial().run(events).files) == opened_files(events),
        ParserStateView::initial().run(events).files.len() == opened_files(events).len(),
{
    let state = ParserStateView::initial();
    lemma_run_counts_files(state, events);
    assert(headers_of(state.files) + open_header(state) + opened_files(events) =~= opened_files(
        events,
    ));
}

/// The events that the tokens before the end of the document stand for, or
/// the error of the first token that is refused.
pub open spec fn events_of(tokens: Seq<TokenView>) -> Result<
    Seq<ParseEventView>,
    ProtocolErrorView,
>
    decreases tokens.len(),
{
    if tokens.len() == 0 || tokens[0] is Eof {
        Ok(Seq::empty())
    } else {
        match event_of(tokens[0]) {
            Ok(event) => match events_of(tokens.skip(1)) {
                Ok(events) => Ok(seq![event] + events),
                Err(e) => Err(e),
            },
            Err(e) => Err(e),
        }
    }
}

/// Reading tokens is running the events they stand for.
pub proof fn lemma_parse_runs_events(state: ParserStateView, tokens: Seq<TokenView>)
    ensures
        parse_from(state, tokens) == match events_of(tokens) {
            Ok(events) => Ok::<Seq<FileChangeView>, ProtocolErrorView>(state.run(events).files),
            Err(e) => Err(e),
        },
    decreases tokens.len(),
{
    if tokens.len() == 0 || tokens[0] is Eof {
    } else {
        match event_of(tokens[0]) {
            Ok(event) => {
                lemma_parse_runs_events(state.step(event), tokens.skip(1));
                match events_of(tokens.skip(1)) {
                    Ok(events) => {
                        let all = seq![event] + events;
                        assert(all[0] == event);
                        assert(all.skip(1) =~= events);
                    },
                    Err(e) => {},
                }
            },
            Err(e) => {},
        }
    }
}

/// A document without a refused token, whose `file` elements close one by
/// one, gives one file change for each of them, in the order in which they
/// open. A self-closing `file` element is among them: it comes as an
/// opening and a closing tag.
pub proof fn lemma_document_order(tokens: Seq<TokenView>)
    requires
        events_of(tokens) is Ok,
        files_closed(events_of(tokens)->Ok_0, false),
    ensures
        parse_from(ParserStateView::initial(), tokens) matches Ok(files) && headers_of(files)
            == opened_files(events_of(tokens)->Ok_0) && files.len() == opened_files(
            events_of(tokens)->Ok_0,
        ).len(),
{
    lemma_parse_runs_events(ParserStateView::initial(), tokens);
    lemma_files_in_document_order(events_of(tokens)->Ok_0);
}

} // verus!
