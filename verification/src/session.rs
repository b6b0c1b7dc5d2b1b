//! The session: the decisions of the agent's loop, one event at a time.

use crate::command::parse_message;
use crate::command::Command;
use crate::digest::ContentHasher;
use crate::model::digest_next;
use crate::model::dispatch;
use crate::model::download_next;
use crate::model::fault;
use crate::model::next;
use crate::model::status_next;
use crate::model::upload_next;
use crate::model::Phase;
use crate::protocol::Event;
use crate::protocol::Reaction;
use crate::protocol::Request;
use crate::protocol::RequestView;
use crate::reply::compose_digest;
use crate::reply::compose_failure;
use crate::reply::compose_saved;
use crate::reply::compose_unknown_log;
use crate::reply::keep_stored;
use crate::reply::Direction;
use crate::reply::FileAction;
use vstd::prelude::*;

verus! {

/// What the agent is in the middle of. Its view is the [`Phase`] of the
/// same name, which says what each variant stands for.
#[derive(Debug)]
pub enum Session {
    Idle,
    UploadOpening { path: String },
    UploadReceiving { path: String },
    UploadWriting { path: String },
    DownloadOpening { path: String },
    DownloadSending { path: String },
    DigestOpening { direction: Direction },
    Digesting { direction: Direction, hasher: ContentHasher },
    StatusPending,
    Stopped,
    Aborted,
}

impl View for Session {
    type V = Phase;

    open spec fn view(&self) -> Phase {
        match self {
            Session::Idle => Phase::Idle,
            Session::UploadOpening { path } => Phase::UploadOpening { path: path@ },
            Session::UploadReceiving { path } => Phase::UploadReceiving { path: path@ },
            Session::UploadWriting { path } => Phase::UploadWriting { path: path@ },
            Session::DownloadOpening { path } => Phase::DownloadOpening { path: path@ },
            Session::DownloadSending { path } => Phase::DownloadSending { path: path@ },
            Session::DigestOpening { direction } => Phase::DigestOpening { direction: *direction },
            Session::Digesting { direction, hasher } => Phase::Digesting {
                direction: *direction,
                fed: hasher@,
            },
            Session::StatusPending => Phase::StatusPending,
            Session::Stopped => Phase::Stopped,
            Session::Aborted => Phase::Aborted,
        }
    }
}

/// Gives up: see [`fault`].
fn give_up() -> (after: (Session, Reaction))
    ensures
        (after.0@, after.1@) == fault(),
{
    (Session::Aborted, Reaction::quiet(Request::Abort))
}

/// Reads one message as a command and starts on it.
pub fn handle_message(message: Vec<u8>) -> (after: (Session, Reaction))
    ensures
        (after.0@, after.1@) == dispatch(message@),
{
    if message.len() == 0 {
        return (Session::Stopped, Reaction::quiet(Request::Stop));
    }
    match parse_message(message.as_slice()) {
        Command::Upload(path) => {
            let request = Request::CreateFile(path.clone());
            (Session::UploadOpening { path }, Reaction::quiet(request))
        },
        Command::Download(path) => {
            let request = Request::OpenFile(path.clone());
            (Session::DownloadOpening { path }, Reaction::quiet(request))
        },
        Command::Status => (Session::StatusPending, Reaction::quiet(Request::QueryStatus)),
        Command::Exit => (Session::Stopped, Reaction::quiet(Request::Stop)),
        Command::Unknown(text) => {
            let line = compose_unknown_log(text.as_str());
            (Session::Idle, Reaction::noting(line, Request::ReadCommand))
        },
    }
}

/// Takes an upload one step further.
pub fn handle_upload(session: Session, event: Event) -> (after: (Session, Reaction))
    ensures
        (after.0@, after.1@) == upload_next(session@, event@),
{
    match (session, event) {
        (Session::UploadOpening { path }, Event::Opened) => (
            Session::UploadReceiving { path },
            Reaction::quiet(Request::ReadPayload),
        ),
        (Session::UploadOpening { path }, Event::Failed(error)) => {
            let reply = compose_failure(FileAction::Open, path.as_str(), error.as_str());
            (Session::Idle, Reaction::saying(reply, Request::ReadCommand))
        },
        (Session::UploadReceiving { path }, Event::Received(data)) => {
            if data.len() == 0 {
                (Session::Idle, Reaction::quiet(Request::ReadCommand))
            } else {
                let request = Request::WriteFile(keep_stored(data));
                (Session::UploadWriting { path }, Reaction::quiet(request))
            }
        },
        (Session::UploadWriting { path }, Event::Written) => (
            Session::DigestOpening { direction: Direction::Upload },
            Reaction::saying(compose_saved(), Request::OpenFile(path)),
        ),
        (Session::UploadWriting { path }, Event::Failed(error)) => {
            let reply = compose_failure(FileAction::Write, path.as_str(), error.as_str());
            (Session::Idle, Reaction::saying(reply, Request::ReadCommand))
        },
        _ => give_up(),
    }
}

/// Takes a download one step further.
pub fn handle_download(session: Session, event: Event) -> (after: (Session, Reaction))
    ensures
        (after.0@, after.1@) == download_next(session@, event@),
{
    match (session, event) {
        (Session::DownloadOpening { path }, Event::Opened) => (
            Session::DownloadSending { path },
            Reaction::quiet(Request::ReadFile),
        ),
        (Session::DownloadOpening { path }, Event::Failed(error)) => {
            let reply = compose_failure(FileAction::Open, path.as_str(), error.as_str());
            (Session::Idle, Reaction::saying(reply, Request::ReadCommand))
        },
        (Session::DownloadSending { path }, Event::Data(chunk)) => {
            if chunk.len() == 0 {
                (
                    Session::DigestOpening { direction: Direction::Download },
                    Reaction::quiet(Request::OpenFile(path)),
                )
            } else {
                (Session::DownloadSending { path }, Reaction::saying(chunk, Request::ReadFile))
            }
        },
        (Session::DownloadSending { path }, Event::Failed(error)) => {
            let reply = compose_failure(FileAction::Read, path.as_str(), error.as_str());
            (Session::Idle, Reaction::saying(reply, Request::ReadCommand))
        },
        _ => give_up(),
    }
}

/// Takes a digest one step further.
pub fn handle_digest(session: Session, event: Event) -> (after: (Session, Reaction))
    ensures
        (after.0@, after.1@) == digest_next(session@, event@),
{
    match (session, event) {
        (Session::DigestOpening { direction }, Event::Opened) => (
            Session::Digesting { direction, hasher: ContentHasher::new() },
            Reaction::quiet(Request::ReadFile),
        ),
        (Session::Digesting { direction, hasher }, Event::Data(chunk)) => {
            if chunk.len() == 0 {
                let reply = compose_digest(direction, hasher.finish());
                (Session::Idle, Reaction::saying(reply, Request::ReadCommand))
            } else {
                let mut hasher = hasher;
                hasher.update(chunk.as_slice());
                (Session::Digesting { direction, hasher }, Reaction::quiet(Request::ReadFile))
            }
        },
        _ => give_up(),
    }
}

/// Takes a status report one step further.
pub fn handle_status(session: Session, event: Event) -> (after: (Session, Reaction))
    ensures
        (after.0@, after.1@) == status_next(session@, event@),
{
    match (session, event) {
        (Session::StatusPending, Event::Status(record)) => (
            Session::Idle,
            Reaction::saying(record.render(), Request::ReadCommand),
        ),
        _ => give_up(),
    }
}

impl Session {
    /// A session that awaits its first command, and the request that
    /// fetches it.
    pub fn start() -> (begun: (Session, Request))
        ensures
            begun.0@ == Phase::Idle,
            begun.1@ == RequestView::ReadCommand,
    {
        (Session::Idle, Request::ReadCommand)
    }

    /// Takes in the event that answers the last request, and says what to
    /// send and what to do next.
    pub fn step(self, event: Event) -> (after: (Session, Reaction))
        ensures
            (after.0@, after.1@) == next(self@, event@),
    {
        match self {
            Session::Idle => match event {
                Event::Received(message) => handle_message(message),
                _ => give_up(),
            },
            Session::UploadOpening { .. }
            | Session::UploadReceiving { .. }
            | Session::UploadWriting { .. } => handle_upload(self, event),
            Session::DownloadOpening { .. } | Session::DownloadSending { .. } => handle_download(
                self,
                event,
            ),
            Session::DigestOpening { .. } | Session::Digesting { .. } => handle_digest(self, event),
            Session::StatusPending => handle_status(self, event),
            Session::Stopped => (Session::Stopped, Reaction::quiet(Request::Stop)),
            Session::Aborted => give_up(),
        }
    }

    /// Whether the loop has ended, in good order or not.
    pub fn is_over(&self) -> (over: bool)
        ensures
            over == (self@ is Stopped || self@ is Aborted),
    {
        match self {
            Session::Stopped => true,
            Session::Aborted => true,
            _ => false,
        }
    }
}

} // verus!
