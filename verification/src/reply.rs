//! What is said to the peer, byte for byte, and what of an upload is kept.

use crate::digest::first_chunk;
use crate::text::bytes_of;
use crate::text::decimal;
use crate::text::push_decimal;
use crate::text::push_text;
use crate::CHUNK_SIZE;
use vstd::prelude::*;

verus! {

/// The two transfers.
#[derive(Debug, Clone, Copy, PartialEq, Eq, Structural)]
pub enum Direction {
    Upload,
    Download,
}

/// What was being done with a file when it failed.
#[derive(Debug, Clone, Copy, PartialEq, Eq, Structural)]
pub enum FileAction {
    Open,
    Write,
    Read,
}

/// What an upload stores of the bytes that arrived: all of them up to
/// [`CHUNK_SIZE`], and no more.
pub open spec fn stored_content(data: Seq<u8>) -> Seq<u8> {
    first_chunk(data)
}

/// The line that confirms an upload.
pub open spec fn saved_reply() -> Seq<u8> {
    bytes_of("File saved successfully\n"@)
}

/// How the line that carries a digest begins. After a download a line
/// break sets it apart from the file's bytes.
pub open spec fn digest_lead(direction: Direction) -> Seq<char> {
    match direction {
        Direction::Upload => "File hash: "@,
        Direction::Download => "\nFile hash: "@,
    }
}

/// The line that carries a digest, in decimal.
pub open spec fn digest_reply(direction: Direction, digest: u64) -> Seq<u8> {
    bytes_of(digest_lead(direction)) + decimal(digest as nat) + bytes_of("\n"@)
}

/// How the line that reports a failure begins.
pub open spec fn failure_lead(action: FileAction) -> Seq<char> {
    match action {
        FileAction::Open => "Failed to open file "@,
        FileAction::Write => "Failed to write file "@,
        FileAction::Read => "Failed to read file "@,
    }
}

/// The line that reports a failure: what failed, the path, and the
/// system's words for the error.
pub open spec fn failure_reply(action: FileAction, path: Seq<char>, error: Seq<char>) -> Seq<u8> {
    bytes_of(failure_lead(action)) + bytes_of(path) + bytes_of(": "@) + bytes_of(error) + bytes_of(
        "\n"@,
    )
}

/// The local log's line for a message that is no command.
pub open spec fn unknown_log(text: Seq<char>) -> Seq<char> {
    "Unknown message: "@ + text
}

/// Cuts `data` down to what an upload stores.
pub fn keep_stored(data: Vec<u8>) -> (kept: Vec<u8>)
    ensures
        kept@ == stored_content(data@),
{
    let mut kept = data;
    if kept.len() > CHUNK_SIZE {
        kept.truncate(CHUNK_SIZE);
    }
    kept
}

/// Composes [`saved_reply`].
pub fn compose_saved() -> (reply: Vec<u8>)
    ensures
        reply@ == saved_reply(),
{
    let mut out: Vec<u8> = Vec::new();
    push_text(&mut out, "File saved successfully\n");
    out
}

/// Composes [`digest_reply`].
pub fn compose_digest(direction: Direction, digest: u64) -> (reply: Vec<u8>)
    ensures
        reply@ == digest_reply(direction, digest),
{
    let mut out: Vec<u8> = Vec::new();
    match direction {
        Direction::Upload => push_text(&mut out, "File hash: "),
        Direction::Download => push_text(&mut out, "\nFile hash: "),
    }
    push_decimal(&mut out, digest);
    push_text(&mut out, "\n");
    out
}

/// Composes [`failure_reply`].
pub fn compose_failure(action: FileAction, path: &str, error: &str) -> (reply: Vec<u8>)
    ensures
        reply@ == failure_reply(action, path@, error@),
{
    let mut out: Vec<u8> = Vec::new();
    match action {
        FileAction::Open => push_text(&mut out, "Failed to open file "),
        FileAction::Write => push_text(&mut out, "Failed to write file "),
        FileAction::Read => push_text(&mut out, "Failed to read file "),
    }
    push_text(&mut out, path);
    push_text(&mut out, ": ");
    push_text(&mut out, error);
    push_text(&mut out, "\n");
    out
}

/// Composes [`unknown_log`].
pub fn compose_unknown_log(text: &str) -> (line: String)
    ensures
        line@ == unknown_log(text@),
{
    let mut line = "Unknown message: ".to_owned();
    line.append(text);
    line
}

} // verus!
