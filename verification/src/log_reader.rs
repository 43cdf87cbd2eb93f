//! Reconstruction of log records from the XML events that a game writes to
//! its standard output.
//!
//! The stream is a sequence of `log4j:Event` elements without a root, each
//! with an optional `log4j:Message` and an optional `log4j:Throwable` that
//! carry their text as character data. The reader keeps the stack of open
//! elements and hands out one record for each event element that closes.

use vstd::prelude::*;
use vstd::string::StringSliceAdditionalSpecFns;
use vstd::utf8::{decode_utf8, valid_utf8};
use crate::game_output::{GameOutputEvent, GameOutputEventView, GameOutputLogLevel};
use crate::message::{MessageToFrontend, MessageToFrontendView};
use crate::text::{
    bytes_eq, parse_i64, parse_i64_decimal, payload_lines, split_payload, string_from_utf8,
    string_from_utf8_lossy, strings_view, utf8_lossy,
};

verus! {

/// One attribute of a start tag, as raw bytes.
#[derive(Debug, Clone, PartialEq, Eq)]
pub struct XmlAttribute {
    pub key: Vec<u8>,
    pub value: Vec<u8>,
}

/// Mathematical model of an [`XmlAttribute`].
pub ghost struct XmlAttributeView {
    pub key: Seq<u8>,
    pub value: Seq<u8>,
}

impl View for XmlAttribute {
    type V = XmlAttributeView;

    open spec fn view(&self) -> XmlAttributeView {
        XmlAttributeView { key: self.key@, value: self.value@ }
    }
}

/// The model of one item of an attribute list: an attribute, or nothing
/// where the tag holds something that is no well-formed attribute.
pub open spec fn attribute_view(attribute: Option<XmlAttribute>) -> Option<XmlAttributeView> {
    match attribute {
        Some(a) => Some(a@),
        None => None,
    }
}

/// The models of a sequence of attributes.
pub open spec fn attributes_view(attributes: Seq<Option<XmlAttribute>>) -> Seq<
    Option<XmlAttributeView>,
> {
    attributes.map_values(|a: Option<XmlAttribute>| attribute_view(a))
}

/// What the reader sees of one event of the XML stream.
#[derive(Debug, Clone, PartialEq, Eq)]
pub enum XmlEvent {
    /// A start tag, with what stands in its attribute list in document
    /// order: attributes, and nothing in place of what is no well-formed
    /// attribute.
    Start { name: Vec<u8>, attributes: Vec<Option<XmlAttribute>> },
    /// An end tag.
    End,
    /// A section of character data.
    CData(Vec<u8>),
    /// The end of the stream.
    Eof,
    /// Anything else: text, comments, empty elements, declarations.
    Other,
}

/// Mathematical model of an [`XmlEvent`].
pub ghost enum XmlEventView {
    Start { name: Seq<u8>, attributes: Seq<Option<XmlAttributeView>> },
    End,
    CData(Seq<u8>),
    Eof,
    Other,
}

impl View for XmlEvent {
    type V = XmlEventView;

    open spec fn view(&self) -> XmlEventView {
        match self {
            XmlEvent::Start { name, attributes } => XmlEventView::Start {
                name: name@,
                attributes: attributes_view(attributes@),
            },
            XmlEvent::End => XmlEventView::End,
            XmlEvent::CData(content) => XmlEventView::CData(content@),
            XmlEvent::Eof => XmlEventView::Eof,
            XmlEvent::Other => XmlEventView::Other,
        }
    }
}

/// The models of a sequence of events.
pub open spec fn events_view(events: Seq<XmlEvent>) -> Seq<XmlEventView> {
    events.map_values(|e: XmlEvent| e@)
}

/// The model of an optional string.
pub open spec fn content_view(content: Option<String>) -> Option<Seq<char>> {
    match content {
        Some(c) => Some(c@),
        None => None,
    }
}

/// One open element.
#[derive(Debug, Clone, PartialEq, Eq)]
pub enum ParseState {
    Event {
        timestamp: i64,
        thread: String,
        level: GameOutputLogLevel,
        text: Option<String>,
        throwable: Option<String>,
    },
    Message { content: Option<String> },
    Throwable { content: Option<String> },
    Unknown,
}

/// Mathematical model of a [`ParseState`].
pub ghost enum ParseStateView {
    Event {
        timestamp: i64,
        thread: Seq<char>,
        level: GameOutputLogLevel,
        text: Option<Seq<char>>,
        throwable: Option<Seq<char>>,
    },
    Message { content: Option<Seq<char>> },
    Throwable { content: Option<Seq<char>> },
    Unknown,
}

impl View for ParseState {
    type V = ParseStateView;

    open spec fn view(&self) -> ParseStateView {
        match self {
            ParseState::Event { timestamp, thread, level, text, throwable } => {
                ParseStateView::Event {
                    timestamp: *timestamp,
                    thread: thread@,
                    level: *level,
                    text: content_view(*text),
                    throwable: content_view(*throwable),
                }
            },
            ParseState::Message { content } => ParseStateView::Message {
                content: content_view(*content),
            },
            ParseState::Throwable { content } => ParseStateView::Throwable {
                content: content_view(*content),
            },
            ParseState::Unknown => ParseStateView::Unknown,
        }
    }
}

/// The models of a stack of open elements, outermost first.
pub open spec fn stack_view(stack: Seq<ParseState>) -> Seq<ParseStateView> {
    stack.map_values(|f: ParseState| f@)
}

/// What a step of the reader hands out.
#[derive(Debug, Clone, PartialEq, Eq)]
pub enum LogStep {
    /// Nothing yet.
    Continue,
    /// A record is complete.
    Record(GameOutputEvent),
    /// The stream has ended; the record says so.
    Finished(GameOutputEvent),
}

/// Mathematical model of a [`LogStep`].
pub ghost enum LogStepView {
    Continue,
    Record(GameOutputEventView),
    Finished(GameOutputEventView),
}

impl View for LogStep {
    type V = LogStepView;

    open spec fn view(&self) -> LogStepView {
        match self {
            LogStep::Continue => LogStepView::Continue,
            LogStep::Record(record) => LogStepView::Record(record@),
            LogStep::Finished(record) => LogStepView::Finished(record@),
        }
    }
}

/// The severity that the value of a `level` attribute stands for.
pub open spec fn level_of(value: Seq<u8>) -> GameOutputLogLevel {
    if value == "FATAL".spec_bytes() {
        GameOutputLogLevel::Fatal
    } else if value == "ERROR".spec_bytes() {
        GameOutputLogLevel::Error
    } else if value == "WARN".spec_bytes() {
        GameOutputLogLevel::Warn
    } else if value == "INFO".spec_bytes() {
        GameOutputLogLevel::Info
    } else if value == "DEBUG".spec_bytes() {
        GameOutputLogLevel::Debug
    } else if value == "TRACE".spec_bytes() {
        GameOutputLogLevel::Trace
    } else {
        GameOutputLogLevel::Other
    }
}

/// The severity that the value of a `level` attribute stands for: one of
/// the six known tokens, or `Other`.
pub fn parse_level(value: &[u8]) -> (res: GameOutputLogLevel)
    ensures
        res == level_of(value@),
{
    if bytes_eq(value, "FATAL".as_bytes()) {
        GameOutputLogLevel::Fatal
    } else if bytes_eq(value, "ERROR".as_bytes()) {
        GameOutputLogLevel::Error
    } else if bytes_eq(value, "WARN".as_bytes()) {
        GameOutputLogLevel::Warn
    } else if bytes_eq(value, "INFO".as_bytes()) {
        GameOutputLogLevel::Info
    } else if bytes_eq(value, "DEBUG".as_bytes()) {
        GameOutputLogLevel::Debug
    } else if bytes_eq(value, "TRACE".as_bytes()) {
        GameOutputLogLevel::Trace
    } else {
        GameOutputLogLevel::Other
    }
}

/// What the attributes of an event element state.
pub ghost struct EventHeader {
    pub timestamp: i64,
    pub thread: Seq<char>,
    pub level: GameOutputLogLevel,
}

/// The header of an event element without attributes.
pub open spec fn default_header() -> EventHeader {
    EventHeader { timestamp: 0, thread: "<unknown thread>"@, level: GameOutputLogLevel::Other }
}

/// The header after one more attribute. A timestamp that is no 64-bit
/// decimal number and a thread name that is no UTF-8 leave the header as it
/// is, and so does an attribute of any other name.
pub open spec fn with_attribute(header: EventHeader, attribute: XmlAttributeView) -> EventHeader {
    if attribute.key == "timestamp".spec_bytes() {
        match parse_i64(attribute.value) {
            Some(timestamp) => EventHeader { timestamp, ..header },
            None => header,
        }
    } else if attribute.key == "level".spec_bytes() {
        EventHeader { level: level_of(attribute.value), ..header }
    } else if attribute.key == "thread".spec_bytes() {
        if valid_utf8(attribute.value) {
            EventHeader { thread: decode_utf8(attribute.value), ..header }
        } else {
            header
        }
    } else {
        header
    }
}

/// The header that the attributes of an event element state, taken in
/// document order: a later attribute overrides an earlier one, and what is
/// no well-formed attribute is passed over.
pub open spec fn header_of(attributes: Seq<Option<XmlAttributeView>>) -> EventHeader
    decreases attributes.len(),
{
    if attributes.len() == 0 {
        default_header()
    } else {
        let before = header_of(attributes.drop_last());
        match attributes.last() {
            Some(attribute) => with_attribute(before, attribute),
            None => before,
        }
    }
}

/// The lines of a record: the lines of the message followed by the lines of
/// the throwable, or a placeholder where the event carried neither.
pub open spec fn assemble_lines(text: Option<Seq<char>>, throwable: Option<Seq<char>>) -> Seq<
    Seq<char>,
> {
    let message_lines = match text {
        Some(t) => payload_lines(t),
        None => seq![],
    };
    let throwable_lines = match throwable {
        Some(t) => payload_lines(t),
        None => seq![],
    };
    if text is None && throwable is None {
        seq!["<empty>"@]
    } else {
        message_lines + throwable_lines
    }
}

/// Where an event carries a message and a throwable, its lines are the
/// lines of the message followed by the lines of the throwable, each
/// payload split on its own.
pub proof fn lemma_message_then_throwable(text: Seq<char>, throwable: Seq<char>)
    ensures
        assemble_lines(Some(text), Some(throwable)) == payload_lines(text) + payload_lines(
            throwable,
        ),
        assemble_lines(Some(text), None) == payload_lines(text),
        assemble_lines(None, Some(throwable)) == payload_lines(throwable),
        assemble_lines(Some(text), Some(throwable)).len() == payload_lines(text).len()
            + payload_lines(throwable).len(),
{
    assert(payload_lines(text) + Seq::<Seq<char>>::empty() =~= payload_lines(text));
    assert(Seq::<Seq<char>>::empty() + payload_lines(throwable) =~= payload_lines(throwable));
}

/// The frame that a start tag opens under the innermost open element `top`.
/// An event element opens at the top level only, a message and a throwable
/// inside an event only; any other tag opens an unknown frame.
pub open spec fn opened_frame(
    top: Option<ParseStateView>,
    name: Seq<u8>,
    attributes: Seq<Option<XmlAttributeView>>,
) -> ParseStateView {
    match top {
        None => if name == "log4j:Event".spec_bytes() {
            let header = header_of(attributes);
            ParseStateView::Event {
                timestamp: header.timestamp,
                thread: header.thread,
                level: header.level,
                text: None,
                throwable: None,
            }
        } else {
            ParseStateView::Unknown
        },
        Some(ParseStateView::Event { .. }) => if name == "log4j:Message".spec_bytes() {
            ParseStateView::Message { content: None }
        } else if name == "log4j:Throwable".spec_bytes() {
            ParseStateView::Throwable { content: None }
        } else {
            ParseStateView::Unknown
        },
        Some(_) => ParseStateView::Unknown,
    }
}

/// The innermost open element, if any.
pub open spec fn top_of(stack: Seq<ParseStateView>) -> Option<ParseStateView> {
    if stack.len() == 0 {
        None
    } else {
        Some(stack.last())
    }
}

/// The enclosing frame once the frame `closed` inside it has closed: an
/// event takes over the text of its message and of its throwable.
pub open spec fn absorb(parent: ParseStateView, closed: ParseStateView) -> ParseStateView {
    match parent {
        ParseStateView::Event { timestamp, thread, level, text, throwable } => match closed {
            ParseStateView::Message { content } => ParseStateView::Event {
                timestamp,
                thread,
                level,
                text: content,
                throwable,
            },
            ParseStateView::Throwable { content } => ParseStateView::Event {
                timestamp,
                thread,
                level,
                text,
                throwable: content,
            },
            _ => parent,
        },
        _ => parent,
    }
}

/// The frame `top` once character data arrived in it: a message and a
/// throwable keep the latest data as their content.
pub open spec fn with_content(top: ParseStateView, content: Seq<char>) -> ParseStateView {
    match top {
        ParseStateView::Message { .. } => ParseStateView::Message { content: Some(content) },
        ParseStateView::Throwable { .. } => ParseStateView::Throwable { content: Some(content) },
        _ => top,
    }
}

/// The record of a closed top-level frame, if it is an event.
pub open spec fn record_of(closed: ParseStateView) -> Option<GameOutputEventView> {
    match closed {
        ParseStateView::Event { timestamp, thread, level, text, throwable } => Some(
            GameOutputEventView {
                time: timestamp,
                thread,
                level,
                lines: assemble_lines(text, throwable),
            },
        ),
        _ => None,
    }
}

/// The stack of open elements after character data arrived.
pub open spec fn stack_after_content(stack: Seq<ParseStateView>, content: Seq<char>) -> Seq<
    ParseStateView,
> {
    if stack.len() == 0 {
        stack
    } else {
        stack.drop_last().push(with_content(stack.last(), content))
    }
}

/// The stack of open elements after an end tag.
pub open spec fn stack_after_end(stack: Seq<ParseStateView>) -> Seq<ParseStateView> {
    if stack.len() <= 1 {
        seq![]
    } else {
        let closed = stack.last();
        let rest = stack.drop_last();
        rest.drop_last().push(absorb(rest.last(), closed))
    }
}

/// The stack of open elements after an event of the stream.
pub open spec fn stack_after(stack: Seq<ParseStateView>, event: XmlEventView) -> Seq<
    ParseStateView,
> {
    match event {
        XmlEventView::Start { name, attributes } => stack.push(
            opened_frame(top_of(stack), name, attributes),
        ),
        XmlEventView::End => stack_after_end(stack),
        XmlEventView::CData(content) => stack_after_content(stack, utf8_lossy(content)),
        XmlEventView::Eof => stack,
        XmlEventView::Other => stack,
    }
}

/// What the reader hands out for an event of the stream that arrives at
/// `now`: the record of an event element when its end tag closes it at the
/// top level, and the closing record at the end of the stream.
pub open spec fn output_of(stack: Seq<ParseStateView>, event: XmlEventView, now: i64) -> LogStepView {
    match event {
        XmlEventView::End => if stack.len() == 1 {
            match record_of(stack.last()) {
                Some(record) => LogStepView::Record(record),
                None => LogStepView::Continue,
            }
        } else {
            LogStepView::Continue
        },
        XmlEventView::Eof => LogStepView::Finished(GameOutputEventView::end_of_output(now)),
        _ => LogStepView::Continue,
    }
}

/// The records that a sequence of events gives from the stack `stack`, up
/// to and including the closing record if the stream ends among them.
pub open spec fn records_of(stack: Seq<ParseStateView>, events: Seq<XmlEventView>, now: i64) -> Seq<
    GameOutputEventView,
>
    decreases events.len(),
{
    if events.len() == 0 {
        seq![]
    } else {
        match output_of(stack, events.first(), now) {
            LogStepView::Finished(record) => seq![record],
            LogStepView::Record(record) => seq![record] + records_of(
                stack_after(stack, events.first()),
                events.drop_first(),
                now,
            ),
            LogStepView::Continue => records_of(
                stack_after(stack, events.first()),
                events.drop_first(),
                now,
            ),
        }
    }
}

/// The counter that gives each output stream its number.
pub struct GameOutputIds {
    next: usize,
}

/// The number behind `id`: numbers run on from zero after the largest.
pub open spec fn following_id(id: usize) -> usize {
    if id == usize::MAX {
        0
    } else {
        (id + 1) as usize
    }
}

impl GameOutputIds {
    /// The number that the next output stream gets.
    pub closed spec fn view(&self) -> usize {
        self.next
    }

    /// A counter that has given out no number.
    pub fn new() -> (res: GameOutputIds)
        ensures
            res@ == 0,
    {
        GameOutputIds { next: 0 }
    }

    /// Gives out the number of a new output stream.
    pub fn mint(&mut self) -> (id: usize)
        ensures
            id == old(self)@,
            final(self)@ == following_id(old(self)@),
    {
        let id = self.next;
        self.next = if id == usize::MAX {
            0
        } else {
            id + 1
        };
        id
    }
}

/// Two output streams that are opened one after the other get different
/// numbers.
pub proof fn lemma_next_stream_gets_another_id(id: usize)
    ensures
        following_id(id) != id,
{
}

/// The models of a sequence of records.
pub open spec fn records_view(records: Seq<GameOutputEvent>) -> Seq<GameOutputEventView> {
    records.map_values(|r: GameOutputEvent| r@)
}

/// Puts the lines of a message and of a throwable together.
pub fn assemble(text: Option<String>, throwable: Option<String>) -> (res: Vec<String>)
    ensures
        strings_view(res@) == assemble_lines(content_view(text), content_view(throwable)),
        res.len() >= 1,
{
    let mut lines: Vec<String> = match &text {
        Some(t) => split_payload(t.as_str()),
        None => Vec::new(),
    };
    assert(text is None ==> strings_view(lines@) =~= seq![]);
    match &throwable {
        Some(t) => {
            let ghost before = lines@;
            let mut more = split_payload(t.as_str());
            let ghost added = more@;
            lines.append(&mut more);
            assert(strings_view(lines@) =~= strings_view(before) + strings_view(added));
        },
        None => {
            assert(strings_view(lines@) + seq![] =~= strings_view(lines@));
        },
    }
    if text.is_none() && throwable.is_none() {
        lines.push("<empty>".to_owned());
        assert(strings_view(lines@) =~= seq!["<empty>"@]);
    }
    lines
}

/// The reader of one game's log output.
pub struct LogReader {
    stack: Vec<ParseState>,
}

impl LogReader {
    /// The stack of open elements, outermost first.
    pub closed spec fn view(&self) -> Seq<ParseStateView> {
        stack_view(self.stack@)
    }

    /// A reader at the start of a stream.
    pub fn new() -> (res: LogReader)
        ensures
            res@ == Seq::<ParseStateView>::empty(),
    {
        let res = LogReader { stack: Vec::new() };
        assert(res@ =~= Seq::<ParseStateView>::empty());
        res
    }

    /// Number of open elements.
    pub fn depth(&self) -> (res: usize)
        ensures
            res == self@.len(),
    {
        self.stack.len()
    }

    fn push_frame(&mut self, frame: ParseState)
        ensures
            final(self)@ == old(self)@.push(frame@),
    {
        self.stack.push(frame);
        assert(self@ =~= old(self)@.push(frame@));
    }

    fn pop_frame(&mut self) -> (res: Option<ParseState>)
        ensures
            old(self)@.len() == 0 ==> res is None && final(self)@ == old(self)@,
            old(self)@.len() > 0 ==> res is Some && res->0@ == old(self)@.last() && final(self)@
                == old(self)@.drop_last(),
    {
        let res = self.stack.pop();
        assert(old(self)@.len() > 0 ==> self@ =~= old(self)@.drop_last());
        assert(old(self)@.len() == 0 ==> self@ =~= old(self)@);
        res
    }

    /// The header that the attributes of an event element state.
    fn read_header(attributes: &Vec<Option<XmlAttribute>>) -> (res: (
        i64,
        String,
        GameOutputLogLevel,
    ))
        ensures
            ({
                let header = header_of(attributes_view(attributes@));
                res.0 == header.timestamp && res.1@ == header.thread && res.2 == header.level
            }),
    {
        let mut timestamp: i64 = 0;
        let mut thread: String = "<unknown thread>".to_owned();
        let mut level = GameOutputLogLevel::Other;
        let ghost all = attributes_view(attributes@);
        assert(all.take(0) =~= seq![]);
        let mut i: usize = 0;
        while i < attributes.len()
            invariant
                i <= attributes.len(),
                all == attributes_view(attributes@),
                ({
                    let header = header_of(all.take(i as int));
                    timestamp == header.timestamp && thread@ == header.thread && level
                        == header.level
                }),
            decreases attributes.len() - i,
        {
            assert(all.take(i + 1).drop_last() == all.take(i as int));
            assert(all.take(i + 1).last() == attribute_view(attributes@[i as int]));
            match &attributes[i] {
                Some(attribute) => {
                    if bytes_eq(attribute.key.as_slice(), "timestamp".as_bytes()) {
                        match parse_i64_decimal(attribute.value.as_slice()) {
                            Some(parsed) => {
                                timestamp = parsed;
                            },
                            None => {},
                        }
                    } else if bytes_eq(attribute.key.as_slice(), "level".as_bytes()) {
                        level = parse_level(attribute.value.as_slice());
                    } else if bytes_eq(attribute.key.as_slice(), "thread".as_bytes()) {
                        match string_from_utf8(attribute.value.as_slice()) {
                            Some(name) => {
                                thread = name;
                            },
                            None => {},
                        }
                    }
                },
                None => {},
            }
            i += 1;
        }
        assert(all.take(attributes.len() as int) == all);
        (timestamp, thread, level)
    }

    /// Takes in a start tag.
    pub fn handle_start(&mut self, name: &[u8], attributes: &Vec<Option<XmlAttribute>>)
        ensures
            final(self)@ == old(self)@.push(
                opened_frame(top_of(old(self)@), name@, attributes_view(attributes@)),
            ),
    {
        let top = self.pop_frame();
        let frame = match &top {
            None => if bytes_eq(name, "log4j:Event".as_bytes()) {
                let (timestamp, thread, level) = Self::read_header(attributes);
                ParseState::Event { timestamp, thread, level, text: None, throwable: None }
            } else {
                ParseState::Unknown
            },
            Some(ParseState::Event { .. }) => if bytes_eq(name, "log4j:Message".as_bytes()) {
                ParseState::Message { content: None }
            } else if bytes_eq(name, "log4j:Throwable".as_bytes()) {
                ParseState::Throwable { content: None }
            } else {
                ParseState::Unknown
            },
            Some(_) => ParseState::Unknown,
        };
        match top {
            Some(t) => {
                self.push_frame(t);
                assert(self@ =~= old(self)@);
            },
            None => {},
        }
        self.push_frame(frame);
    }

    /// Takes in a section of character data, already decoded.
    pub fn handle_content(&mut self, content: String)
        ensures
            final(self)@ == stack_after_content(old(self)@, content@),
    {
        match self.pop_frame() {
            Some(ParseState::Message { .. }) => {
                self.push_frame(ParseState::Message { content: Some(content) });
            },
            Some(ParseState::Throwable { .. }) => {
                self.push_frame(ParseState::Throwable { content: Some(content) });
            },
            Some(other) => {
                self.push_frame(other);
            },
            None => {},
        }
    }

    /// Takes in an end tag. Returns the record of the event element that it
    /// closes, if it closes one at the top level.
    pub fn handle_end(&mut self) -> (res: Option<GameOutputEvent>)
        ensures
            final(self)@ == stack_after_end(old(self)@),
            res is Some <==> old(self)@.len() == 1 && record_of(old(self)@.last()) is Some,
            res is Some ==> Some(res->0@) == record_of(old(self)@.last()),
    {
        let closed = match self.pop_frame() {
            Some(frame) => frame,
            None => {
                return None;
            },
        };
        match self.pop_frame() {
            None => {
                match closed {
                    ParseState::Event { timestamp, thread, level, text, throwable } => {
                        let lines = assemble(text, throwable);
                        Some(GameOutputEvent { time: timestamp, thread, level, lines })
                    },
                    _ => None,
                }
            },
            Some(parent) => {
                let merged = match parent {
                    ParseState::Event { timestamp, thread, level, text, throwable } => {
                        match closed {
                            ParseState::Message { content } => ParseState::Event {
                                timestamp,
                                thread,
                                level,
                                text: content,
                                throwable,
                            },
                            ParseState::Throwable { content } => ParseState::Event {
                                timestamp,
                                thread,
                                level,
                                text,
                                throwable: content,
                            },
                            _ => ParseState::Event { timestamp, thread, level, text, throwable },
                        }
                    },
                    other => other,
                };
                self.push_frame(merged);
                None
            },
        }
    }

    /// Takes in one event of the stream, which arrives at `now`
    /// (milliseconds since the Unix epoch).
    pub fn handle_event(&mut self, event: &XmlEvent, now: i64) -> (res: LogStep)
        ensures
            final(self)@ == stack_after(old(self)@, event@),
            res@ == output_of(old(self)@, event@, now),
    {
        match event {
            XmlEvent::Start { name, attributes } => {
                self.handle_start(name.as_slice(), attributes);
                LogStep::Continue
            },
            XmlEvent::End => {
                match self.handle_end() {
                    Some(record) => LogStep::Record(record),
                    None => LogStep::Continue,
                }
            },
            XmlEvent::CData(content) => {
                let decoded = string_from_utf8_lossy(content.as_slice());
                self.handle_content(decoded);
                LogStep::Continue
            },
            XmlEvent::Eof => LogStep::Finished(GameOutputEvent::end_of_output(now)),
            XmlEvent::Other => LogStep::Continue,
        }
    }

    /// Takes in a sequence of events, all of which arrive at `now`, and
    /// returns the records they give. Events behind the end of the stream
    /// are not looked at.
    pub fn handle_events(&mut self, events: &Vec<XmlEvent>, now: i64) -> (res: Vec<GameOutputEvent>)
        ensures
            records_view(res@) == records_of(old(self)@, events_view(events@), now),
    {
        let mut records: Vec<GameOutputEvent> = Vec::new();
        let ghost all = events_view(events@);
        assert(records_view(records@) =~= seq![]);
        assert(all.skip(0) == all);
        let mut i: usize = 0;
        while i < events.len()
            invariant
                i <= events.len(),
                all == events_view(events@),
                records_of(old(self)@, all, now) == records_view(records@) + records_of(
                    self@,
                    all.skip(i as int),
                    now,
                ),
            decreases events.len() - i,
        {
            let ghost rest = all.skip(i as int);
            assert(rest.first() == events@[i as int]@);
            assert(rest.drop_first() == all.skip(i + 1));
            let ghost before = records@;
            match self.handle_event(&events[i], now) {
                LogStep::Continue => {},
                LogStep::Record(record) => {
                    records.push(record);
                    assert(records_view(records@) =~= records_view(before) + seq![record@]);
                    assert(records_view(before) + (seq![record@] + records_of(
                        self@,
                        all.skip(i + 1),
                        now,
                    )) =~= records_view(records@) + records_of(self@, all.skip(i + 1), now));
                },
                LogStep::Finished(record) => {
                    records.push(record);
                    assert(records_view(records@) =~= records_view(before) + seq![record@]);
                    return records;
                },
            }
            i += 1;
        }
        assert(all.skip(events.len() as int) =~= seq![]);
        assert(records_view(records@) + seq![] =~= records_view(records@));
        records
    }
}

/// The models of a sequence of messages.
pub open spec fn messages_view(messages: Seq<MessageToFrontend>) -> Seq<MessageToFrontendView> {
    messages.map_values(|m: MessageToFrontend| m@)
}

/// The messages that the output stream `id` of a game gives: the request
/// for a window, then one message for each record of the stream.
pub open spec fn game_output_messages(id: usize, events: Seq<XmlEventView>, now: i64) -> Seq<
    MessageToFrontendView,
> {
    seq![MessageToFrontendView::CreateGameOutputWindow { id }] + records_of(
        seq![],
        events,
        now,
    ).map_values(|record: GameOutputEventView| record.message(id))
}

/// Reads the output of a game from its start: asks for a window for the
/// output stream `id`, then turns the events of the stream, all of which
/// arrive at `now`, into one message for each record.
pub fn start_game_output(id: usize, events: &Vec<XmlEvent>, now: i64) -> (res: Vec<
    MessageToFrontend,
>)
    ensures
        messages_view(res@) == game_output_messages(id, events_view(events@), now),
{
    let mut log = LogReader::new();
    let records = log.handle_events(events, now);
    let ghost all = records_view(records@);
    let ghost to_message = |record: GameOutputEventView| record.message(id);
    let mut messages: Vec<MessageToFrontend> = Vec::new();
    messages.push(MessageToFrontend::CreateGameOutputWindow { id });
    let ghost first = seq![MessageToFrontendView::CreateGameOutputWindow { id }];
    assert(messages_view(messages@) =~= first);
    assert(first + all.take(0).map_values(to_message) =~= first);
    let mut done: usize = 0;
    while done < records.len()
        invariant
            done <= records.len(),
            all == records_view(records@),
            all.len() == records.len(),
            messages.len() == done + 1,
            first.len() == 1,
            to_message == |record: GameOutputEventView| record.message(id),
            messages_view(messages@) == first + all.take(done as int).map_values(to_message),
        decreases records.len() - done,
    {
        let ghost before = messages@;
        let message = records[done].to_message(id);
        messages.push(message);
        proof {
            let target = first + all.take(done + 1).map_values(to_message);
            assert(messages_view(before) == first + all.take(done as int).map_values(to_message));
            assert(message@ == to_message(all[done as int]));
            assert(messages_view(messages@).len() == target.len());
            assert forall|k: int| 0 <= k < target.len() implies messages_view(messages@)[k]
                == target[k] by {
                if k < before.len() {
                    assert(messages_view(messages@)[k] == messages_view(before)[k]);
                    if k >= 1 {
                        assert(all.take(done as int)[k - 1] == all.take(done + 1)[k - 1]);
                    }
                }
            }
        }
        assert(messages_view(messages@) =~= first + all.take(done + 1).map_values(to_message));
        done += 1;
    }
    assert(all.take(records.len() as int) == all);
    messages
}

} // verus!
