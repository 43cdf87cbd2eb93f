//! Records of a running game's structured log output.

use vstd::prelude::*;
use crate::message::{MessageToFrontend, MessageToFrontendView};
use crate::text::{clone_strings, strings_view};

verus! {

/// Severity of one log record.
#[derive(Debug, Clone, Copy, PartialEq, Eq, Structural)]
pub enum GameOutputLogLevel {
    Fatal,
    Error,
    Warn,
    Info,
    Debug,
    Trace,
    Other,
}

/// One record of a game's log output.
#[derive(Debug, Clone, PartialEq, Eq)]
pub struct GameOutputEvent {
    /// When the record was written, in milliseconds since the Unix epoch.
    pub time: i64,
    /// The thread that wrote it.
    pub thread: String,
    pub level: GameOutputLogLevel,
    /// The text of the record, line by line. There is at least one line.
    pub lines: Vec<String>,
}

/// Mathematical model of a [`GameOutputEvent`].
pub ghost struct GameOutputEventView {
    pub time: i64,
    pub thread: Seq<char>,
    pub level: GameOutputLogLevel,
    pub lines: Seq<Seq<char>>,
}

impl View for GameOutputEvent {
    type V = GameOutputEventView;

    open spec fn view(&self) -> GameOutputEventView {
        GameOutputEventView {
            time: self.time,
            thread: self.thread@,
            level: self.level,
            lines: strings_view(self.lines@),
        }
    }
}

impl GameOutputEventView {
    /// The record that closes the output of a game, written at `now`.
    pub open spec fn end_of_output(now: i64) -> GameOutputEventView {
        GameOutputEventView {
            time: now,
            thread: "main"@,
            level: GameOutputLogLevel::Info,
            lines: seq!["<end of output>"@],
        }
    }

    /// The message that carries the record to the front end, for the output
    /// stream `id`.
    pub open spec fn message(self, id: usize) -> MessageToFrontendView {
        MessageToFrontendView::AddGameOutput {
            id,
            time: self.time,
            thread: self.thread,
            level: self.level,
            text: self.lines,
        }
    }
}

impl GameOutputEvent {
    /// The record that closes the output of a game, written at `now`.
    pub fn end_of_output(now: i64) -> (res: GameOutputEvent)
        ensures
            res@ == GameOutputEventView::end_of_output(now),
    {
        let mut lines: Vec<String> = Vec::new();
        lines.push("<end of output>".to_owned());
        assert(strings_view(lines@) =~= seq!["<end of output>"@]);
        GameOutputEvent {
            time: now,
            thread: "main".to_owned(),
            level: GameOutputLogLevel::Info,
            lines,
        }
    }

    /// The message that carries a copy of the record to the front end, for
    /// the output stream `id`.
    pub fn to_message(&self, id: usize) -> (res: MessageToFrontend)
        ensures
            res@ == self@.message(id),
    {
        MessageToFrontend::AddGameOutput {
            id,
            time: self.time,
            thread: self.thread.clone(),
            level: self.level,
            text: clone_strings(&self.lines),
        }
    }

    /// The message that carries the record to the front end, for the output
    /// stream `id`.
    pub fn into_message(self, id: usize) -> (res: MessageToFrontend)
        ensures
            res@ == self@.message(id),
    {
        MessageToFrontend::AddGameOutput {
            id,
            time: self.time,
            thread: self.thread,
            level: self.level,
            text: self.lines,
        }
    }
}

} // verus!
