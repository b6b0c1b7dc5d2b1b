//! The commands a peer can send, and how a message is read as one.

use crate::text::bytes_of;
use vstd::prelude::*;
use vstd::utf8::decode_utf8;
use vstd::utf8::encode_utf8_decode_utf8;
use vstd::utf8::encode_utf8_valid_utf8;
use vstd::utf8::valid_utf8;

verus! {

/// One message from the peer, read as a command.
#[derive(Debug, Clone, PartialEq, Eq)]
pub enum Command {
    /// Store what the peer sends next in the file at this path.
    Upload(String),
    /// Send back the file at this path.
    Download(String),
    /// Report the host's status.
    Status,
    /// Stop serving.
    Exit,
    /// Anything else; the whole message is kept for the log.
    Unknown(String),
}

/// A [`Command`] with its texts as sequences of characters.
pub enum CommandView {
    Upload(Seq<char>),
    Download(Seq<char>),
    Status,
    Exit,
    Unknown(Seq<char>),
}

impl View for Command {
    type V = CommandView;

    open spec fn view(&self) -> CommandView {
        match self {
            Command::Upload(path) => CommandView::Upload(path@),
            Command::Download(path) => CommandView::Download(path@),
            Command::Status => CommandView::Status,
            Command::Exit => CommandView::Exit,
            Command::Unknown(text) => CommandView::Unknown(text@),
        }
    }
}

/// The command that `text` stands for.
///
/// The verbs are tried in this order and are case-sensitive. What follows
/// `UPLOAD: ` or `DOWNLOAD: ` is the path, taken as it is. `EXIT: ` and
/// `STATUS` need only begin the message.
pub open spec fn command_of(text: Seq<char>) -> CommandView {
    if "UPLOAD: "@.is_prefix_of(text) {
        CommandView::Upload(text.skip("UPLOAD: "@.len() as int))
    } else if "DOWNLOAD: "@.is_prefix_of(text) {
        CommandView::Download(text.skip("DOWNLOAD: "@.len() as int))
    } else if "EXIT: "@.is_prefix_of(text) {
        CommandView::Exit
    } else if "STATUS"@.is_prefix_of(text) {
        CommandView::Status
    } else {
        CommandView::Unknown(text)
    }
}

/// What is left of `text` after `prefix`, if `text` begins with it.
fn strip_prefix<'a>(text: &'a str, prefix: &str) -> (rest: Option<&'a str>)
    ensures
        rest is Some <==> prefix@.is_prefix_of(text@),
        rest matches Some(tail) ==> tail@ == text@.skip(prefix@.len() as int),
{
    let wanted: usize = prefix.unicode_len();
    let given: usize = text.unicode_len();
    if wanted > given {
        return None;
    }
    let mut i: usize = 0;
    while i < wanted
        invariant
            i <= wanted <= given,
            wanted == prefix@.len(),
            given == text@.len(),
            forall|j: int| 0 <= j < i ==> text@[j] == prefix@[j],
        decreases wanted - i,
    {
        if text.get_char(i) != prefix.get_char(i) {
            assert(text@.subrange(0, wanted as int)[i as int] != prefix@[i as int]);
            return None;
        }
        i += 1;
    }
    assert(prefix@ =~= text@.subrange(0, wanted as int));
    Some(text.substring_char(wanted, given))
}

/// Reads `text` as a command.
pub fn parse_command(text: &str) -> (command: Command)
    ensures
        command@ == command_of(text@),
{
    if let Some(path) = strip_prefix(text, "UPLOAD: ") {
        Command::Upload(path.to_owned())
    } else if let Some(path) = strip_prefix(text, "DOWNLOAD: ") {
        Command::Download(path.to_owned())
    } else if strip_prefix(text, "EXIT: ").is_some() {
        Command::Exit
    } else if strip_prefix(text, "STATUS").is_some() {
        Command::Status
    } else {
        Command::Unknown(text.to_owned())
    }
}

/// The text that lossy UTF-8 decoding makes of `bytes`: every sequence
/// that is not valid UTF-8 gives way to U+FFFD.
pub uninterp spec fn lossy_text(bytes: Seq<u8>) -> Seq<char>;

/// Calls `String::from_utf8_lossy`.
///
/// Trusted: the result is [`lossy_text`] of the bytes, and bytes that are
/// valid UTF-8 decode to the text that they encode.
#[verifier::external_body]
fn decode_lossy(bytes: &[u8]) -> (text: String)
    ensures
        text@ == lossy_text(bytes@),
        valid_utf8(bytes@) ==> text@ == decode_utf8(bytes@),
{
    String::from_utf8_lossy(bytes).into_owned()
}

/// The text of a message: what its bytes encode, invalid sequences
/// replaced.
pub open spec fn message_text(message: Seq<u8>) -> Seq<char> {
    if valid_utf8(message) {
        decode_utf8(message)
    } else {
        lossy_text(message)
    }
}

/// Reads the bytes of one message as a command.
pub fn parse_message(message: &[u8]) -> (command: Command)
    ensures
        command@ == command_of(message_text(message@)),
{
    let text = decode_lossy(message);
    parse_command(text.as_str())
}

/// A message that is the bytes of a text reads as that text.
pub proof fn law_message_of_text(text: Seq<char>)
    ensures
        message_text(bytes_of(text)) == text,
{
    encode_utf8_valid_utf8(text);
    encode_utf8_decode_utf8(text);
}

/// Each verb, with anything after it, stands for its command; what
/// follows `UPLOAD: ` or `DOWNLOAD: ` is the path.
pub proof fn law_verbs(rest: Seq<char>)
    ensures
        command_of("UPLOAD: "@ + rest) == CommandView::Upload(rest),
        command_of("DOWNLOAD: "@ + rest) == CommandView::Download(rest),
        command_of("EXIT: "@ + rest) == CommandView::Exit,
        command_of("STATUS"@ + rest) == CommandView::Status,
{
    reveal_strlit("UPLOAD: ");
    reveal_strlit("DOWNLOAD: ");
    reveal_strlit("EXIT: ");
    reveal_strlit("STATUS");
    assert(("UPLOAD: "@ + rest).skip(8) == rest);
    assert(("DOWNLOAD: "@ + rest).skip(10) == rest);
    assert(("UPLOAD: "@ + rest)[0] == 'U');
    assert(("DOWNLOAD: "@ + rest)[0] == 'D');
    assert(("EXIT: "@ + rest)[0] == 'E');
    assert(("STATUS"@ + rest)[0] == 'S');
    assert("UPLOAD: "@.is_prefix_of("UPLOAD: "@ + rest));
    assert("DOWNLOAD: "@.is_prefix_of("DOWNLOAD: "@ + rest));
    assert("EXIT: "@.is_prefix_of("EXIT: "@ + rest));
    assert("STATUS"@.is_prefix_of("STATUS"@ + rest));
}

/// A text that begins with none of the verbs is no command.
pub proof fn law_no_verb_no_command(text: Seq<char>)
    requires
        !"UPLOAD: "@.is_prefix_of(text),
        !"DOWNLOAD: "@.is_prefix_of(text),
        !"EXIT: "@.is_prefix_of(text),
        !"STATUS"@.is_prefix_of(text),
    ensures
        command_of(text) == CommandView::Unknown(text),
{
}

} // verus!
