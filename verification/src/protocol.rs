//! What passes between a session and the code that drives it.
//!
//! The driver owns the connection and at most one open file. It performs
//! the request that a session hands it and answers with the event that
//! the request calls for:
//!
//! | request       | what the driver does                              | answer                |
//! |---------------|---------------------------------------------------|-----------------------|
//! | `ReadCommand` | closes the file; one read of the connection       | `Received`            |
//! | `ReadPayload` | one read of the connection                        | `Received`            |
//! | `CreateFile`  | creates or truncates the named file, to write     | `Opened` or `Failed`  |
//! | `OpenFile`    | closes the file; opens the named one, to read     | `Opened` or `Failed`  |
//! | `WriteFile`   | writes all the bytes to the open file             | `Written` or `Failed` |
//! | `ReadFile`    | one read of the open file                         | `Data` or `Failed`    |
//! | `QueryStatus` | gathers the host's status                         | `Status`              |
//! | `Stop`        | closes the file and leaves the loop               | none                  |
//! | `Abort`       | closes the file and gives up                      | none                  |
//!
//! A read moves at most [`crate::CHUNK_SIZE`] bytes and yields no bytes
//! when the peer has closed the connection or the file has ended. An error
//! on the connection itself is the driver's to die of.

use crate::status::StatusRecord;
use crate::status::StatusView;
use vstd::prelude::*;

verus! {

/// What the driver reports back.
#[derive(Debug, Clone, PartialEq, Eq)]
pub enum Event {
    /// The bytes of one read of the connection.
    Received(Vec<u8>),
    /// The file is open.
    Opened,
    /// The file could not be opened, written or read; the text is the
    /// system's description of the error.
    Failed(String),
    /// The bytes of one read of the open file.
    Data(Vec<u8>),
    /// The bytes are in the file.
    Written,
    /// The host's status.
    Status(StatusRecord),
}

/// An [`Event`] with its contents as sequences.
pub enum EventView {
    Received(Seq<u8>),
    Opened,
    Failed(Seq<char>),
    Data(Seq<u8>),
    Written,
    Status(StatusView),
}

impl View for Event {
    type V = EventView;

    open spec fn view(&self) -> EventView {
        match self {
            Event::Received(bytes) => EventView::Received(bytes@),
            Event::Opened => EventView::Opened,
            Event::Failed(error) => EventView::Failed(error@),
            Event::Data(bytes) => EventView::Data(bytes@),
            Event::Written => EventView::Written,
            Event::Status(record) => EventView::Status(record@),
        }
    }
}

/// What the driver is asked to do next.
#[derive(Debug, Clone, PartialEq, Eq)]
pub enum Request {
    /// Read the next message, which is taken for a command. No file stays
    /// open over this.
    ReadCommand,
    /// Read the bytes of an upload. The file that awaits them stays open.
    ReadPayload,
    /// Create the file at this path, or empty it, and open it to write.
    CreateFile(String),
    /// Open the file at this path to read.
    OpenFile(String),
    /// Write all these bytes to the open file.
    WriteFile(Vec<u8>),
    /// Read the next chunk of the open file.
    ReadFile,
    /// Gather the host's status.
    QueryStatus,
    /// Leave the loop: the peer asked for it, or has gone.
    Stop,
    /// Give up without a word to the peer: the session cannot go on.
    Abort,
}

/// A [`Request`] with its contents as sequences.
pub enum RequestView {
    ReadCommand,
    ReadPayload,
    CreateFile(Seq<char>),
    OpenFile(Seq<char>),
    WriteFile(Seq<u8>),
    ReadFile,
    QueryStatus,
    Stop,
    Abort,
}

impl View for Request {
    type V = RequestView;

    open spec fn view(&self) -> RequestView {
        match self {
            Request::ReadCommand => RequestView::ReadCommand,
            Request::ReadPayload => RequestView::ReadPayload,
            Request::CreateFile(path) => RequestView::CreateFile(path@),
            Request::OpenFile(path) => RequestView::OpenFile(path@),
            Request::WriteFile(bytes) => RequestView::WriteFile(bytes@),
            Request::ReadFile => RequestView::ReadFile,
            Request::QueryStatus => RequestView::QueryStatus,
            Request::Stop => RequestView::Stop,
            Request::Abort => RequestView::Abort,
        }
    }
}

/// A session's answer to an event.
#[derive(Debug, Clone, PartialEq, Eq)]
pub struct Reaction {
    /// Bytes to send to the peer first, if any.
    pub reply: Option<Vec<u8>>,
    /// A line for the local log, if any.
    pub log: Option<String>,
    /// What to do after that.
    pub request: Request,
}

/// A [`Reaction`] with its contents as sequences.
pub struct ReactionView {
    pub reply: Option<Seq<u8>>,
    pub log: Option<Seq<char>>,
    pub request: RequestView,
}

impl View for Reaction {
    type V = ReactionView;

    open spec fn view(&self) -> ReactionView {
        ReactionView {
            reply: match self.reply {
                Some(bytes) => Some(bytes@),
                None => None,
            },
            log: match self.log {
                Some(line) => Some(line@),
                None => None,
            },
            request: self.request@,
        }
    }
}

/// A reaction that sends nothing.
pub open spec fn quiet(request: RequestView) -> ReactionView {
    ReactionView { reply: None, log: None, request }
}

/// A reaction that sends `reply` first.
pub open spec fn saying(reply: Seq<u8>, request: RequestView) -> ReactionView {
    ReactionView { reply: Some(reply), log: None, request }
}

/// A reaction that sends nothing and notes `line` in the log.
pub open spec fn noting(line: Seq<char>, request: RequestView) -> ReactionView {
    ReactionView { reply: None, log: Some(line), request }
}

impl Reaction {
    /// Makes [`quiet`].
    pub fn quiet(request: Request) -> (reaction: Reaction)
        ensures
            reaction@ == quiet(request@),
    {
        Reaction { reply: None, log: None, request }
    }

    /// Makes [`saying`].
    pub fn saying(reply: Vec<u8>, request: Request) -> (reaction: Reaction)
        ensures
            reaction@ == saying(reply@, request@),
    {
        Reaction { reply: Some(reply), log: None, request }
    }

    /// Makes [`noting`].
    pub fn noting(line: String, request: Request) -> (reaction: Reaction)
        ensures
            reaction@ == noting(line@, request@),
    {
        Reaction { reply: None, log: Some(line), request }
    }
}

} // verus!
