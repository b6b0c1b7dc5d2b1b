//! A driver that does as it is asked, over files and a peer that are
//! given as plain values: the setting in which the session's laws are
//! stated.
//!
//! In this world no operation fails but the opening of a file that is not
//! there, and a file can only be read through a handle that was opened to
//! read it, or written through one that created it.

use crate::digest::first_chunk;
use crate::model::answers;
use crate::model::next;
use crate::model::Phase;
use crate::protocol::EventView;
use crate::protocol::RequestView;
use crate::status::StatusView;
use crate::CHUNK_SIZE;
use vstd::prelude::*;

verus! {

/// The driver's one open file.
pub enum Handle {
    /// A file that was created to be written.
    Writing { path: Seq<char> },
    /// A file that was opened to be read, and how many of its bytes have
    /// been read.
    Reading { path: Seq<char>, position: nat },
}

/// All that a driver works on.
pub struct World {
    /// The files, by path.
    pub files: Map<Seq<char>, Seq<u8>>,
    /// The open file, if there is one.
    pub open: Option<Handle>,
    /// What the peer sends and has not been read yet, one send after
    /// another; when nothing is left the peer has closed the connection.
    pub incoming: Seq<Seq<u8>>,
    /// Every byte that was sent to the peer.
    pub outgoing: Seq<u8>,
    /// The status that the host reports.
    pub status: StatusView,
    /// The system's words for a request that it refuses.
    pub complaint: Seq<char>,
}

/// What is left on the connection after one read: the read takes the
/// first chunk of what the peer sent next and leaves the rest of that for
/// later reads.
pub open spec fn left_unread(incoming: Seq<Seq<u8>>) -> Seq<Seq<u8>> {
    if incoming.len() == 0 {
        incoming
    } else if incoming[0].len() <= CHUNK_SIZE {
        incoming.skip(1)
    } else {
        incoming.update(0, incoming[0].skip(CHUNK_SIZE as int))
    }
}

/// One read of the connection. It yields nothing when the peer has closed
/// the connection.
pub open spec fn receive(world: World) -> (World, EventView) {
    let got = if world.incoming.len() == 0 {
        Seq::empty()
    } else {
        first_chunk(world.incoming[0])
    };
    (World { incoming: left_unread(world.incoming), ..world }, EventView::Received(got))
}

/// One read of the open file.
pub open spec fn read_file(world: World) -> (World, EventView) {
    match world.open {
        Some(Handle::Reading { path, position }) => if world.files.dom().contains(path)
            && position <= world.files[path].len() {
            let got = first_chunk(world.files[path].skip(position as int));
            (
                World {
                    open: Some(Handle::Reading { path, position: position + got.len() }),
                    ..world
                },
                EventView::Data(got),
            )
        } else {
            (world, EventView::Failed(world.complaint))
        },
        _ => (world, EventView::Failed(world.complaint)),
    }
}

/// One write to the open file, at its end.
pub open spec fn write_file(world: World, bytes: Seq<u8>) -> (World, EventView) {
    match world.open {
        Some(Handle::Writing { path }) => if world.files.dom().contains(path) {
            (
                World { files: world.files.insert(path, world.files[path] + bytes), ..world },
                EventView::Written,
            )
        } else {
            (world, EventView::Failed(world.complaint))
        },
        _ => (world, EventView::Failed(world.complaint)),
    }
}

/// The world with its file closed.
pub open spec fn released(world: World) -> World {
    World { open: None, ..world }
}

/// What becomes of the world when the driver performs `request`, and the
/// event that it reports; nothing for the two requests that end the loop.
pub open spec fn perform(world: World, request: RequestView) -> Option<(World, EventView)> {
    match request {
        RequestView::ReadCommand => Some(receive(released(world))),
        RequestView::ReadPayload => Some(receive(world)),
        RequestView::CreateFile(path) => Some(
            (
                World {
                    files: world.files.insert(path, Seq::empty()),
                    open: Some(Handle::Writing { path }),
                    ..world
                },
                EventView::Opened,
            ),
        ),
        RequestView::OpenFile(path) => if world.files.dom().contains(path) {
            Some(
                (
                    World { open: Some(Handle::Reading { path, position: 0 }), ..world },
                    EventView::Opened,
                ),
            )
        } else {
            Some((released(world), EventView::Failed(world.complaint)))
        },
        RequestView::WriteFile(bytes) => Some(write_file(world, bytes)),
        RequestView::ReadFile => Some(read_file(world)),
        RequestView::QueryStatus => Some((world, EventView::Status(world.status))),
        RequestView::Stop => None,
        RequestView::Abort => None,
    }
}

/// The world after the session's reply, if it made one, has been sent.
pub open spec fn delivered(world: World, reply: Option<Seq<u8>>) -> World {
    match reply {
        Some(bytes) => World { outgoing: world.outgoing + bytes, ..world },
        None => world,
    }
}

/// A session, the request that it has made, and the world that the
/// request meets.
pub struct Run {
    pub phase: Phase,
    pub request: RequestView,
    pub world: World,
}

/// One turn of the driver's loop: the request is performed, the session
/// takes the event in, and its reply is sent. A run whose request ends
/// the loop only has its file closed.
pub open spec fn turn(run: Run) -> Run {
    match perform(run.world, run.request) {
        Some((world, event)) => {
            let (phase, reaction) = next(run.phase, event);
            Run { phase, request: reaction.request, world: delivered(world, reaction.reply) }
        },
        None => Run { world: released(run.world), ..run },
    }
}

/// `turns` turns of the driver's loop.
pub open spec fn drive(run: Run, turns: nat) -> Run
    decreases turns,
{
    if turns == 0 {
        run
    } else {
        drive(turn(run), (turns - 1) as nat)
    }
}

/// Turns add up.
pub proof fn lemma_drive_add(run: Run, first: nat, second: nat)
    ensures
        drive(run, first + second) == drive(drive(run, first), second),
    decreases first,
{
    if first > 0 {
        lemma_drive_add(turn(run), (first - 1) as nat, second);
    }
}

/// The driver answers every request as the request calls for.
pub proof fn law_driver_answers(world: World, request: RequestView)
    ensures
        match perform(world, request) {
            Some((_, event)) => answers(request, event),
            None => request is Stop || request is Abort,
        },
{
}

/// No file stays open beyond the handler that opened it: when a command
/// is read, and when the loop ends, the file is closed.
pub proof fn law_file_is_closed_between_commands(run: Run)
    requires
        run.request is ReadCommand || run.request is Stop || run.request is Abort,
    ensures
        turn(run).world.open is None,
{
}

} // verus!
