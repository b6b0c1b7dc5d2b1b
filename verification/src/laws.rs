//! What holds of every session that is driven as asked.
//!
//! Each law follows a session through the turns of a driver's loop, in a
//! [`World`] of plain values, and says what the peer has been sent and
//! what the files hold at the end.

use crate::command::command_of;
use crate::command::message_text;
use crate::command::CommandView;
use crate::digest::absorb_all;
use crate::digest::absorbed;
use crate::digest::chunks_of;
use crate::digest::content_digest;
use crate::digest::first_chunk;
use crate::model::Phase;
use crate::protocol::RequestView;
use crate::reply::digest_reply;
use crate::reply::failure_reply;
use crate::reply::saved_reply;
use crate::reply::stored_content;
use crate::reply::Direction;
use crate::reply::FileAction;
use crate::status::status_text;
use crate::world::drive;
use crate::world::left_unread;
use crate::world::lemma_drive_add;
use crate::world::released;
use crate::world::turn;
use crate::world::Handle;
use crate::world::Run;
use crate::world::World;
use crate::CHUNK_SIZE;
use std::collections::hash_map::DefaultHasher;
use vstd::prelude::*;
use vstd::std_specs::hash::DefaultHasherAdditionalSpecFns;

verus! {

/// A session that awaits a command in `world`.
pub open spec fn awaiting(world: World) -> Run {
    Run { phase: Phase::Idle, request: RequestView::ReadCommand, world }
}

/// Whether the next read of the connection yields a whole message that
/// stands for `command`.
pub open spec fn command_ahead(world: World, command: CommandView) -> bool {
    &&& world.incoming.len() > 0
    &&& 0 < world.incoming[0].len() <= CHUNK_SIZE
    &&& command_of(message_text(world.incoming[0])) == command
}

/// The turns that it takes to read a file to its end: one for each chunk
/// and one for the read that yields nothing.
pub open spec fn reading_turns(content: Seq<u8>) -> nat {
    chunks_of(content).len() + 1
}

proof fn lemma_chunks_step(rest: Seq<u8>)
    requires
        rest.len() > 0,
    ensures
        first_chunk(rest).len() > 0,
        first_chunk(rest).len() <= rest.len(),
        chunks_of(rest).len() == 1 + chunks_of(rest.skip(first_chunk(rest).len() as int)).len(),
        chunks_of(rest)[0] == first_chunk(rest),
        chunks_of(rest).skip(1) == chunks_of(rest.skip(first_chunk(rest).len() as int)),
        first_chunk(rest) + rest.skip(first_chunk(rest).len() as int) == rest,
{
    let head = first_chunk(rest);
    let tail = chunks_of(rest.skip(head.len() as int));
    assert(chunks_of(rest) == seq![head] + tail);
    assert((seq![head] + tail).skip(1) == tail);
    assert(head + rest.skip(head.len() as int) == rest);
}

/// A download that has sent a file up to `position` sends the rest of it
/// and goes on to the digest.
proof fn lemma_send_to_end(path: Seq<char>, world: World, position: nat)
    requires
        world.files.dom().contains(path),
        position <= world.files[path].len(),
        world.open == Some(Handle::Reading { path, position }),
    ensures
        drive(
            Run { phase: Phase::DownloadSending { path }, request: RequestView::ReadFile, world },
            reading_turns(world.files[path].skip(position as int)),
        ) == (Run {
            phase: Phase::DigestOpening { direction: Direction::Download },
            request: RequestView::OpenFile(path),
            world: World {
                open: Some(Handle::Reading { path, position: world.files[path].len() }),
                outgoing: world.outgoing + world.files[path].skip(position as int),
                ..world
            },
        }),
    decreases world.files[path].len() - position,
{
    let content = world.files[path];
    let rest = content.skip(position as int);
    let run = Run {
        phase: Phase::DownloadSending { path },
        request: RequestView::ReadFile,
        world,
    };
    if rest.len() == 0 {
        assert(world.outgoing + rest == world.outgoing);
        assert(drive(turn(run), 0) == turn(run));
    } else {
        lemma_chunks_step(rest);
        let got = first_chunk(rest);
        let after = World {
            open: Some(Handle::Reading { path, position: position + got.len() }),
            outgoing: world.outgoing + got,
            ..world
        };
        assert(turn(run) == (Run { world: after, ..run }));
        assert(content.skip((position + got.len()) as int) == rest.skip(got.len() as int));
        lemma_send_to_end(path, after, position + got.len());
        assert(world.outgoing + got + rest.skip(got.len() as int) == world.outgoing + rest);
    }
}

/// A digest that has taken in a file up to `position` takes in the rest
/// of it and sends the result.
proof fn lemma_digest_to_end(
    direction: Direction,
    fed: Seq<Seq<u8>>,
    path: Seq<char>,
    world: World,
    position: nat,
)
    requires
        world.files.dom().contains(path),
        position <= world.files[path].len(),
        world.open == Some(Handle::Reading { path, position }),
    ensures
        drive(
            Run {
                phase: Phase::Digesting { direction, fed },
                request: RequestView::ReadFile,
                world,
            },
            reading_turns(world.files[path].skip(position as int)),
        ) == (Run {
            phase: Phase::Idle,
            request: RequestView::ReadCommand,
            world: World {
                open: Some(Handle::Reading { path, position: world.files[path].len() }),
                outgoing: world.outgoing + digest_reply(
                    direction,
                    DefaultHasher::spec_finish(
                        absorb_all(fed, chunks_of(world.files[path].skip(position as int))),
                    ),
                ),
                ..world
            },
        }),
    decreases world.files[path].len() - position,
{
    let content = world.files[path];
    let rest = content.skip(position as int);
    let run = Run {
        phase: Phase::Digesting { direction, fed },
        request: RequestView::ReadFile,
        world,
    };
    if rest.len() == 0 {
        assert(drive(turn(run), 0) == turn(run));
    } else {
        lemma_chunks_step(rest);
        let got = first_chunk(rest);
        let after = World {
            open: Some(Handle::Reading { path, position: position + got.len() }),
            ..world
        };
        assert(content.skip((position + got.len()) as int) == rest.skip(got.len() as int));
        lemma_digest_to_end(
            direction,
            absorbed(fed, got),
            path,
            after,
            position + got.len(),
        );
    }
}

/// The digest of a file is taken and sent, whatever handle was open
/// before.
proof fn lemma_digest_file(direction: Direction, path: Seq<char>, world: World)
    requires
        world.files.dom().contains(path),
    ensures
        drive(
            Run {
                phase: Phase::DigestOpening { direction },
                request: RequestView::OpenFile(path),
                world,
            },
            1 + reading_turns(world.files[path]),
        ) == (Run {
            phase: Phase::Idle,
            request: RequestView::ReadCommand,
            world: World {
                open: Some(Handle::Reading { path, position: world.files[path].len() }),
                outgoing: world.outgoing + digest_reply(
                    direction,
                    content_digest(world.files[path]),
                ),
                ..world
            },
        }),
{
    let run = Run {
        phase: Phase::DigestOpening { direction },
        request: RequestView::OpenFile(path),
        world,
    };
    let opened = World { open: Some(Handle::Reading { path, position: 0 }), ..world };
    assert(world.files[path].skip(0) == world.files[path]);
    lemma_digest_to_end(direction, Seq::empty(), path, opened, 0);
    lemma_drive_add(run, 1, reading_turns(world.files[path]));
    assert(drive(run, 1) == turn(run)) by {
        assert(drive(turn(run), 0) == turn(run));
    }
}

/// The turns that a download takes, from the command to the digest.
pub open spec fn download_turns(content: Seq<u8>) -> nat {
    3 + 2 * reading_turns(content)
}

/// A download sends every byte of the file, whatever its size, and then
/// the digest of its content; after that the session awaits the next
/// command. The files are as they were.
pub proof fn law_download(path: Seq<char>, world: World)
    requires
        command_ahead(world, CommandView::Download(path)),
        world.files.dom().contains(path),
    ensures
        ({
            let content = world.files[path];
            let end = drive(awaiting(world), download_turns(content));
            &&& end.phase == Phase::Idle
            &&& end.request == RequestView::ReadCommand
            &&& end.world.outgoing == world.outgoing + content + digest_reply(
                Direction::Download,
                content_digest(content),
            )
            &&& end.world.files == world.files
            &&& end.world.incoming == world.incoming.skip(1)
        }),
{
    let content = world.files[path];
    let reads = reading_turns(content);
    let start = awaiting(world);
    // The command is read, and the file is asked for.
    let asked = Run {
        phase: Phase::DownloadOpening { path },
        request: RequestView::OpenFile(path),
        world: World { open: None, incoming: world.incoming.skip(1), ..world },
    };
    assert(turn(start) == asked);
    // The file is open.
    let opened = World {
        open: Some(Handle::Reading { path, position: 0 }),
        incoming: world.incoming.skip(1),
        ..world
    };
    let sending = Run {
        phase: Phase::DownloadSending { path },
        request: RequestView::ReadFile,
        world: opened,
    };
    assert(turn(asked) == sending);
    assert(drive(start, 2) == sending) by {
        assert(drive(sending, 0) == sending);
        assert(drive(asked, 1) == drive(turn(asked), 0));
    }
    // The file is sent.
    assert(content.skip(0) == content);
    lemma_send_to_end(path, opened, 0);
    let sent = World {
        open: Some(Handle::Reading { path, position: content.len() }),
        outgoing: world.outgoing + content,
        ..opened
    };
    let hashing = Run {
        phase: Phase::DigestOpening { direction: Direction::Download },
        request: RequestView::OpenFile(path),
        world: sent,
    };
    assert(drive(sending, reads) == hashing);
    // The digest follows.
    lemma_digest_file(Direction::Download, path, sent);
    lemma_drive_add(start, 2, reads);
    lemma_drive_add(start, 2 + reads, 1 + reads);
}

/// The turns that an upload takes, from the command to the digest.
pub open spec fn upload_turns(payload: Seq<u8>) -> nat {
    5 + reading_turns(stored_content(payload))
}

/// An upload stores what one read of the connection yields of the peer's
/// next send, and nothing else: all of it up to the chunk size. It
/// replaces what the file held. The peer is told that the file is saved
/// and then the digest of what the file now holds; after that the session
/// awaits the next command.
pub proof fn law_upload(path: Seq<char>, world: World)
    requires
        command_ahead(world, CommandView::Upload(path)),
        world.incoming.len() > 1,
        world.incoming[1].len() > 0,
    ensures
        ({
            let payload = world.incoming[1];
            let end = drive(awaiting(world), upload_turns(payload));
            &&& end.phase == Phase::Idle
            &&& end.request == RequestView::ReadCommand
            &&& end.world.files == world.files.insert(path, stored_content(payload))
            &&& end.world.outgoing == world.outgoing + saved_reply() + digest_reply(
                Direction::Upload,
                content_digest(stored_content(payload)),
            )
            &&& end.world.incoming == left_unread(world.incoming.skip(1))
        }),
{
    let payload = world.incoming[1];
    let stored = stored_content(payload);
    let start = awaiting(world);
    // The command is read, and the file is asked for.
    let ahead = world.incoming.skip(1);
    let asked = Run {
        phase: Phase::UploadOpening { path },
        request: RequestView::CreateFile(path),
        world: World { open: None, incoming: ahead, ..world },
    };
    assert(turn(start) == asked);
    // The file is there, and empty.
    let created = World {
        files: world.files.insert(path, Seq::empty()),
        open: Some(Handle::Writing { path }),
        incoming: ahead,
        ..world
    };
    let receiving = Run {
        phase: Phase::UploadReceiving { path },
        request: RequestView::ReadPayload,
        world: created,
    };
    assert(turn(asked) == receiving);
    // One read of the connection.
    assert(ahead[0] == payload);
    let left = left_unread(ahead);
    let writing = Run {
        phase: Phase::UploadWriting { path },
        request: RequestView::WriteFile(stored),
        world: World { incoming: left, ..created },
    };
    assert(stored_content(stored) == stored);
    assert(turn(receiving) == writing);
    // The bytes are written.
    let written = World {
        files: world.files.insert(path, stored),
        open: Some(Handle::Writing { path }),
        incoming: left,
        outgoing: world.outgoing + saved_reply(),
        ..world
    };
    let hashing = Run {
        phase: Phase::DigestOpening { direction: Direction::Upload },
        request: RequestView::OpenFile(path),
        world: written,
    };
    assert(turn(writing) == hashing) by {
        assert(Seq::<u8>::empty() + stored == stored);
        assert(created.files.insert(path, stored) == world.files.insert(path, stored));
    }
    assert(drive(start, 4) == hashing) by {
        assert(drive(hashing, 0) == hashing);
        assert(drive(writing, 1) == drive(turn(writing), 0));
        assert(drive(receiving, 2) == drive(turn(receiving), 1));
        assert(drive(asked, 3) == drive(turn(asked), 2));
    }
    // The digest follows.
    lemma_digest_file(Direction::Upload, path, written);
    lemma_drive_add(start, 4, 1 + reading_turns(stored));
}

/// What an upload stores is what arrived, if that fits in a chunk, and
/// else its first chunk, which is exactly [`CHUNK_SIZE`] bytes long.
pub proof fn law_upload_keeps_one_chunk(data: Seq<u8>)
    ensures
        data.len() <= CHUNK_SIZE ==> stored_content(data) == data,
        data.len() > CHUNK_SIZE ==> stored_content(data) == data.take(CHUNK_SIZE as int)
            && stored_content(data).len() == CHUNK_SIZE,
{
}

/// A file that fits in a chunk comes back as it went: uploaded and then
/// downloaded, its bytes reach the peer unchanged, and the digest after
/// the upload, the digest after the download and the digest of the bytes
/// themselves are one and the same.
pub proof fn law_round_trip(path: Seq<char>, content: Seq<u8>, world: World)
    requires
        0 < content.len() <= CHUNK_SIZE,
        world.incoming.len() > 2,
        command_ahead(world, CommandView::Upload(path)),
        world.incoming[1] == content,
        command_ahead(
            World { incoming: world.incoming.skip(2), ..world },
            CommandView::Download(path),
        ),
    ensures
        ({
            let end = drive(awaiting(world), upload_turns(content) + download_turns(content));
            let digest = content_digest(content);
            &&& end.phase == Phase::Idle
            &&& end.request == RequestView::ReadCommand
            &&& end.world.files == world.files.insert(path, content)
            &&& end.world.outgoing == world.outgoing + saved_reply() + digest_reply(
                Direction::Upload,
                digest,
            ) + content + digest_reply(Direction::Download, digest)
            &&& end.world.incoming == world.incoming.skip(3)
        }),
{
    let start = awaiting(world);
    law_upload(path, world);
    let middle = drive(start, upload_turns(content));
    assert(stored_content(content) == content);
    assert(left_unread(world.incoming.skip(1)) == world.incoming.skip(2)) by {
        assert(world.incoming.skip(1).skip(1) == world.incoming.skip(2));
    }
    assert(middle == awaiting(middle.world));
    assert(middle.world.incoming[0] == world.incoming.skip(2)[0]);
    law_download(path, middle.world);
    lemma_drive_add(start, upload_turns(content), download_turns(content));
    assert(world.incoming.skip(2).skip(1) == world.incoming.skip(3));
}

/// An upload for which the peer sends nothing ends without a reply: the
/// file is there and empty, and the session awaits the next command.
pub proof fn law_upload_without_payload(path: Seq<char>, world: World)
    requires
        command_ahead(world, CommandView::Upload(path)),
        world.incoming.len() == 1,
    ensures
        ({
            let end = drive(awaiting(world), 3);
            &&& end.phase == Phase::Idle
            &&& end.request == RequestView::ReadCommand
            &&& end.world.files == world.files.insert(path, Seq::empty())
            &&& end.world.outgoing == world.outgoing
        }),
{
    let start = awaiting(world);
    let ahead = world.incoming.skip(1);
    let asked = Run {
        phase: Phase::UploadOpening { path },
        request: RequestView::CreateFile(path),
        world: World { open: None, incoming: ahead, ..world },
    };
    assert(turn(start) == asked);
    let created = World {
        files: world.files.insert(path, Seq::empty()),
        open: Some(Handle::Writing { path }),
        incoming: ahead,
        ..world
    };
    let receiving = Run {
        phase: Phase::UploadReceiving { path },
        request: RequestView::ReadPayload,
        world: created,
    };
    assert(turn(asked) == receiving);
    let end = Run { phase: Phase::Idle, request: RequestView::ReadCommand, world: created };
    assert(turn(receiving) == end);
    assert(drive(start, 3) == end) by {
        assert(drive(end, 0) == end);
        assert(drive(receiving, 1) == drive(turn(receiving), 0));
        assert(drive(asked, 2) == drive(turn(asked), 1));
    }
}

/// A download of a file that is not there sends the line that says so,
/// and the session awaits the next command.
pub proof fn law_download_of_missing_file(path: Seq<char>, world: World)
    requires
        command_ahead(world, CommandView::Download(path)),
        !world.files.dom().contains(path),
    ensures
        ({
            let end = drive(awaiting(world), 2);
            &&& end.phase == Phase::Idle
            &&& end.request == RequestView::ReadCommand
            &&& end.world.files == world.files
            &&& end.world.outgoing == world.outgoing + failure_reply(
                FileAction::Open,
                path,
                world.complaint,
            )
        }),
{
    let start = awaiting(world);
    let asked = Run {
        phase: Phase::DownloadOpening { path },
        request: RequestView::OpenFile(path),
        world: World { open: None, incoming: world.incoming.skip(1), ..world },
    };
    assert(turn(start) == asked);
    assert(drive(start, 2) == turn(asked)) by {
        assert(drive(turn(asked), 0) == turn(asked));
        assert(drive(asked, 1) == drive(turn(asked), 0));
    }
}

/// A message that is no command is passed over: nothing is sent, no file
/// is touched, and the session awaits the next message as if this one had
/// never come.
pub proof fn law_unknown_is_passed_over(text: Seq<char>, world: World)
    requires
        command_ahead(world, CommandView::Unknown(text)),
    ensures
        turn(awaiting(world)) == awaiting(
            World { open: None, incoming: world.incoming.skip(1), ..world },
        ),
        forall|turns: nat|
            drive(awaiting(world), turns + 1) == #[trigger] drive(
                awaiting(World { open: None, incoming: world.incoming.skip(1), ..world }),
                turns,
            ),
{
}

/// Once the loop has ended it stays ended: nothing more is sent, and no
/// file is open.
pub proof fn lemma_stopped_stays(run: Run, turns: nat)
    requires
        run.phase == Phase::Stopped,
        run.request == RequestView::Stop,
        run.world.open is None,
    ensures
        drive(run, turns) == run,
    decreases turns,
{
    if turns > 0 {
        assert(turn(run) == run);
        lemma_stopped_stays(run, (turns - 1) as nat);
    }
}

/// `EXIT: ` ends the loop at once and for good: nothing is sent, none of
/// what the peer sent after it is read, and no file is open.
pub proof fn law_exit_ends_the_loop(world: World, turns: nat)
    requires
        command_ahead(world, CommandView::Exit),
        turns > 0,
    ensures
        drive(awaiting(world), turns) == (Run {
            phase: Phase::Stopped,
            request: RequestView::Stop,
            world: World { open: None, incoming: world.incoming.skip(1), ..world },
        }),
{
    let end = Run {
        phase: Phase::Stopped,
        request: RequestView::Stop,
        world: World { open: None, incoming: world.incoming.skip(1), ..world },
    };
    assert(turn(awaiting(world)) == end);
    lemma_stopped_stays(end, (turns - 1) as nat);
}

/// When the peer has closed the connection the loop ends in the same way.
pub proof fn law_closed_connection_ends_the_loop(world: World, turns: nat)
    requires
        world.incoming.len() == 0,
        turns > 0,
    ensures
        drive(awaiting(world), turns) == (Run {
            phase: Phase::Stopped,
            request: RequestView::Stop,
            world: released(world),
        }),
{
    let end = Run { phase: Phase::Stopped, request: RequestView::Stop, world: released(world) };
    assert(turn(awaiting(world)) == end);
    lemma_stopped_stays(end, (turns - 1) as nat);
}

/// `STATUS` sends the report of what the host supplies, and the session
/// awaits the next command.
pub proof fn law_status_is_reported(world: World)
    requires
        command_ahead(world, CommandView::Status),
    ensures
        drive(awaiting(world), 2) == awaiting(
            World {
                open: None,
                incoming: world.incoming.skip(1),
                outgoing: world.outgoing + status_text(world.status),
                ..world
            },
        ),
{
    let start = awaiting(world);
    let asked = Run {
        phase: Phase::StatusPending,
        request: RequestView::QueryStatus,
        world: World { open: None, incoming: world.incoming.skip(1), ..world },
    };
    assert(turn(start) == asked);
    assert(drive(start, 2) == turn(asked)) by {
        assert(drive(turn(asked), 0) == turn(asked));
        assert(drive(asked, 1) == drive(turn(asked), 0));
    }
}

/// The digest of a file depends on nothing but its bytes: files that hold
/// the same bytes have the same digest.
pub proof fn law_digest_is_deterministic(first: Seq<u8>, second: Seq<u8>)
    requires
        first =~= second,
    ensures
        content_digest(first) == content_digest(second),
{
}

/// Two downloads of the same content send the same bytes, digest and all,
/// whatever the files are called, whatever else there is on disk, and
/// whatever the peer sends afterwards.
pub proof fn law_same_content_same_download(
    first_path: Seq<char>,
    first: World,
    second_path: Seq<char>,
    second: World,
)
    requires
        command_ahead(first, CommandView::Download(first_path)),
        command_ahead(second, CommandView::Download(second_path)),
        first.files.dom().contains(first_path),
        second.files.dom().contains(second_path),
        first.files[first_path] == second.files[second_path],
        first.outgoing == second.outgoing,
    ensures
        drive(awaiting(first), download_turns(first.files[first_path])).world.outgoing == drive(
            awaiting(second),
            download_turns(second.files[second_path]),
        ).world.outgoing,
{
    law_download(first_path, first);
    law_download(second_path, second);
}

/// Whether the open file is one that can be read on: it was opened to
/// read, it is there, and no more of it has been read than it holds.
pub open spec fn reading(world: World, path: Seq<char>) -> bool {
    &&& world.open matches Some(Handle::Reading { path: open, position })
    &&& open == path
    &&& world.files.dom().contains(path)
    &&& position <= world.files[path].len()
}

/// Whether the open file is the one at `path`, created to be written.
pub open spec fn writing(world: World, path: Seq<char>) -> bool {
    &&& world.open == Some(Handle::Writing { path })
    &&& world.files.dom().contains(path)
}

/// Whether a run is in order: the request is what the session waits on,
/// the world is such that the request can be met, and the session has not
/// given up.
pub open spec fn in_order(run: Run) -> bool {
    match run.phase {
        Phase::Idle => run.request is ReadCommand,
        Phase::UploadOpening { path } => run.request == RequestView::CreateFile(path),
        Phase::UploadReceiving { path } => run.request is ReadPayload && writing(run.world, path),
        Phase::UploadWriting { path } => run.request is WriteFile && writing(run.world, path),
        Phase::DownloadOpening { path } => run.request == RequestView::OpenFile(path),
        Phase::DownloadSending { path } => run.request is ReadFile && reading(run.world, path),
        Phase::DigestOpening { .. } => run.request matches RequestView::OpenFile(path)
            && run.world.files.dom().contains(path),
        Phase::Digesting { .. } => run.request is ReadFile && exists|path: Seq<char>|
            reading(run.world, path),
        Phase::StatusPending => run.request is QueryStatus,
        Phase::Stopped => run.request is Stop,
        Phase::Aborted => false,
    }
}

/// A turn leaves a run that is in order in order.
proof fn lemma_turn_keeps_order(run: Run)
    requires
        in_order(run),
    ensures
        in_order(turn(run)),
{
    match run.phase {
        Phase::DownloadSending { path } => {
            assert(reading(turn(run).world, path));
        },
        Phase::DigestOpening { .. } => {
            let path = run.request->OpenFile_0;
            assert(reading(turn(run).world, path));
        },
        Phase::Digesting { .. } => {
            let path = choose|path: Seq<char>| reading(run.world, path);
            assert(reading(turn(run).world, path));
        },
        _ => {},
    }
}

/// A session that is driven as it asks never gives up, whatever the peer
/// sends and whatever the files hold; and what it asks for at any time is
/// what it then waits on.
pub proof fn law_never_gives_up(world: World, turns: nat)
    ensures
        in_order(drive(awaiting(world), turns)),
        !(drive(awaiting(world), turns).phase is Aborted),
{
    lemma_stays_in_order(awaiting(world), turns);
}

proof fn lemma_stays_in_order(run: Run, turns: nat)
    requires
        in_order(run),
    ensures
        in_order(drive(run, turns)),
    decreases turns,
{
    if turns > 0 {
        lemma_turn_keeps_order(run);
        lemma_stays_in_order(turn(run), (turns - 1) as nat);
    }
}

} // verus!
