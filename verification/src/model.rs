//! The session as a state machine over sequences: what it is in the middle
//! of, and where each event takes it.

use crate::command::command_of;
use crate::command::message_text;
use crate::command::CommandView;
use crate::digest::absorbed;
use crate::protocol::noting;
use crate::protocol::quiet;
use crate::protocol::saying;
use crate::protocol::EventView;
use crate::protocol::ReactionView;
use crate::protocol::RequestView;
use crate::reply::digest_reply;
use crate::reply::failure_reply;
use crate::reply::saved_reply;
use crate::reply::stored_content;
use crate::reply::unknown_log;
use crate::reply::Direction;
use crate::reply::FileAction;
use crate::status::status_text;
use std::collections::hash_map::DefaultHasher;
use vstd::prelude::*;
use vstd::std_specs::hash::DefaultHasherAdditionalSpecFns;

verus! {

/// What a session is in the middle of.
pub enum Phase {
    /// Nothing: the next message is a command.
    Idle,
    /// An upload whose file is being created.
    UploadOpening { path: Seq<char> },
    /// An upload whose bytes are awaited on the connection.
    UploadReceiving { path: Seq<char> },
    /// An upload whose bytes are being written.
    UploadWriting { path: Seq<char> },
    /// A download whose file is being opened.
    DownloadOpening { path: Seq<char> },
    /// A download whose file is being sent, chunk by chunk.
    DownloadSending { path: Seq<char> },
    /// A transfer whose file is being opened once more, for its digest.
    DigestOpening { direction: Direction },
    /// A transfer whose file is being read for its digest; `fed` is what
    /// the hasher has been fed so far.
    Digesting { direction: Direction, fed: Seq<Seq<u8>> },
    /// A status report that awaits the host's status.
    StatusPending,
    /// The loop has ended in good order.
    Stopped,
    /// The session has given up.
    Aborted,
}

/// Where a session goes when it gives up: on a failure while a digest is
/// taken, and on an event that does not answer its request.
pub open spec fn fault() -> (Phase, ReactionView) {
    (Phase::Aborted, quiet(RequestView::Abort))
}

/// What an idle session makes of a message. No bytes mean that the peer
/// has closed the connection.
pub open spec fn dispatch(message: Seq<u8>) -> (Phase, ReactionView) {
    if message.len() == 0 {
        (Phase::Stopped, quiet(RequestView::Stop))
    } else {
        match command_of(message_text(message)) {
            CommandView::Upload(path) => (
                Phase::UploadOpening { path },
                quiet(RequestView::CreateFile(path)),
            ),
            CommandView::Download(path) => (
                Phase::DownloadOpening { path },
                quiet(RequestView::OpenFile(path)),
            ),
            CommandView::Status => (Phase::StatusPending, quiet(RequestView::QueryStatus)),
            CommandView::Exit => (Phase::Stopped, quiet(RequestView::Stop)),
            CommandView::Unknown(text) => (
                Phase::Idle,
                noting(unknown_log(text), RequestView::ReadCommand),
            ),
        }
    }
}

/// An upload's next step.
///
/// The file is created before any byte is awaited. One read of the
/// connection is all that is stored, cut to the chunk size; a read that
/// yields nothing ends the upload without a word. Once the bytes are
/// written the peer is told so, and the file is opened again for its
/// digest.
pub open spec fn upload_next(phase: Phase, event: EventView) -> (Phase, ReactionView) {
    match (phase, event) {
        (Phase::UploadOpening { path }, EventView::Opened) => (
            Phase::UploadReceiving { path },
            quiet(RequestView::ReadPayload),
        ),
        (Phase::UploadOpening { path }, EventView::Failed(error)) => (
            Phase::Idle,
            saying(failure_reply(FileAction::Open, path, error), RequestView::ReadCommand),
        ),
        (Phase::UploadReceiving { path }, EventView::Received(data)) => if data.len() == 0 {
            (Phase::Idle, quiet(RequestView::ReadCommand))
        } else {
            (Phase::UploadWriting { path }, quiet(RequestView::WriteFile(stored_content(data))))
        },
        (Phase::UploadWriting { path }, EventView::Written) => (
            Phase::DigestOpening { direction: Direction::Upload },
            saying(saved_reply(), RequestView::OpenFile(path)),
        ),
        (Phase::UploadWriting { path }, EventView::Failed(error)) => (
            Phase::Idle,
            saying(failure_reply(FileAction::Write, path, error), RequestView::ReadCommand),
        ),
        _ => fault(),
    }
}

/// A download's next step.
///
/// Every chunk that the file yields is sent as it is; the read that yields
/// nothing ends the file, which is then opened again for its digest.
pub open spec fn download_next(phase: Phase, event: EventView) -> (Phase, ReactionView) {
    match (phase, event) {
        (Phase::DownloadOpening { path }, EventView::Opened) => (
            Phase::DownloadSending { path },
            quiet(RequestView::ReadFile),
        ),
        (Phase::DownloadOpening { path }, EventView::Failed(error)) => (
            Phase::Idle,
            saying(failure_reply(FileAction::Open, path, error), RequestView::ReadCommand),
        ),
        (Phase::DownloadSending { path }, EventView::Data(chunk)) => if chunk.len() == 0 {
            (Phase::DigestOpening { direction: Direction::Download }, quiet(RequestView::OpenFile(path)))
        } else {
            (Phase::DownloadSending { path }, saying(chunk, RequestView::ReadFile))
        },
        (Phase::DownloadSending { path }, EventView::Failed(error)) => (
            Phase::Idle,
            saying(failure_reply(FileAction::Read, path, error), RequestView::ReadCommand),
        ),
        _ => fault(),
    }
}

/// A digest's next step.
///
/// Every chunk that the file yields is fed to the hasher; the read that
/// yields nothing ends the file, and the digest is sent. A file that
/// cannot be opened or read now is beyond repair.
pub open spec fn digest_next(phase: Phase, event: EventView) -> (Phase, ReactionView) {
    match (phase, event) {
        (Phase::DigestOpening { direction }, EventView::Opened) => (
            Phase::Digesting { direction, fed: Seq::empty() },
            quiet(RequestView::ReadFile),
        ),
        (Phase::Digesting { direction, fed }, EventView::Data(chunk)) => if chunk.len() == 0 {
            (
                Phase::Idle,
                saying(
                    digest_reply(direction, DefaultHasher::spec_finish(fed)),
                    RequestView::ReadCommand,
                ),
            )
        } else {
            (Phase::Digesting { direction, fed: absorbed(fed, chunk) }, quiet(RequestView::ReadFile))
        },
        _ => fault(),
    }
}

/// A status report's next step: the host's status goes out as it came.
pub open spec fn status_next(phase: Phase, event: EventView) -> (Phase, ReactionView) {
    match (phase, event) {
        (Phase::StatusPending, EventView::Status(record)) => (
            Phase::Idle,
            saying(status_text(record), RequestView::ReadCommand),
        ),
        _ => fault(),
    }
}

/// Where `event` takes a session that is in `phase`, and what the session
/// answers.
pub open spec fn next(phase: Phase, event: EventView) -> (Phase, ReactionView) {
    match phase {
        Phase::Idle => match event {
            EventView::Received(message) => dispatch(message),
            _ => fault(),
        },
        Phase::UploadOpening { .. } | Phase::UploadReceiving { .. } | Phase::UploadWriting {
            ..
        } => upload_next(phase, event),
        Phase::DownloadOpening { .. } | Phase::DownloadSending { .. } => download_next(
            phase,
            event,
        ),
        Phase::DigestOpening { .. } | Phase::Digesting { .. } => digest_next(phase, event),
        Phase::StatusPending => status_next(phase, event),
        Phase::Stopped => (Phase::Stopped, quiet(RequestView::Stop)),
        Phase::Aborted => fault(),
    }
}

/// Whether `request` is what a session in `phase` waits on.
pub open spec fn pending(phase: Phase, request: RequestView) -> bool {
    match phase {
        Phase::Idle => request is ReadCommand,
        Phase::UploadOpening { path } => request == RequestView::CreateFile(path),
        Phase::UploadReceiving { .. } => request is ReadPayload,
        Phase::UploadWriting { .. } => request is WriteFile,
        Phase::DownloadOpening { path } => request == RequestView::OpenFile(path),
        Phase::DownloadSending { .. } => request is ReadFile,
        Phase::DigestOpening { .. } => request is OpenFile,
        Phase::Digesting { .. } => request is ReadFile,
        Phase::StatusPending => request is QueryStatus,
        Phase::Stopped => request is Stop,
        Phase::Aborted => request is Abort,
    }
}

/// Whether `event` is an answer that `request` calls for.
pub open spec fn answers(request: RequestView, event: EventView) -> bool {
    match request {
        RequestView::ReadCommand | RequestView::ReadPayload => event is Received,
        RequestView::CreateFile(_) | RequestView::OpenFile(_) => event is Opened || event is Failed,
        RequestView::WriteFile(_) => event is Written || event is Failed,
        RequestView::ReadFile => event is Data || event is Failed,
        RequestView::QueryStatus => event is Status,
        RequestView::Stop | RequestView::Abort => false,
    }
}

/// Whatever the event, the session's answer asks for what its new phase
/// waits on. So a command is read when the session is idle and at no
/// other time: each command is seen through before the next is read.
pub proof fn law_request_fits_phase(phase: Phase, event: EventView)
    ensures
        pending(next(phase, event).0, next(phase, event).1.request),
        next(phase, event).1.request is ReadCommand <==> next(phase, event).0 is Idle,
{
}

/// A session that is answered as its request calls for gives up in one
/// case only: the file cannot be opened or read for its digest.
pub proof fn law_gives_up_on_digest_failure_only(
    phase: Phase,
    request: RequestView,
    event: EventView,
)
    requires
        pending(phase, request),
        answers(request, event),
    ensures
        next(phase, event).0 is Aborted <==> (phase is DigestOpening || phase is Digesting)
            && event is Failed,
{
}

/// A session replies to the peer only when a handler has something to
/// say: never on reading a command, and never when it stops or gives up.
pub proof fn law_silent_steps(phase: Phase, event: EventView)
    ensures
        phase is Idle ==> next(phase, event).1.reply is None,
        next(phase, event).0 is Stopped ==> next(phase, event).1.reply is None,
        next(phase, event).0 is Aborted ==> next(phase, event).1.reply is None,
{
}

} // verus!
