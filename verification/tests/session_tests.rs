use file_agent::protocol::Event;
use file_agent::protocol::Reaction;
use file_agent::protocol::Request;
use file_agent::session::handle_digest;
use file_agent::session::handle_download;
use file_agent::session::handle_message;
use file_agent::session::handle_status;
use file_agent::session::handle_upload;
use file_agent::session::Session;
use file_agent::status::StatusRecord;

fn quiet(request: Request) -> Reaction {
    Reaction { reply: None, log: None, request }
}

fn saying(reply: &[u8], request: Request) -> Reaction {
    Reaction { reply: Some(reply.to_vec()), log: None, request }
}

fn path() -> String {
    "/tmp/a.txt".to_string()
}

#[test]
fn a_new_session_awaits_a_command() {
    let (session, request) = Session::start();
    assert!(matches!(session, Session::Idle));
    assert_eq!(request, Request::ReadCommand);
    assert!(!session.is_over());
}

#[test]
fn upload_command_asks_for_the_file_to_be_created() {
    let (session, _) = Session::start();
    let (session, reaction) = session.step(Event::Received(b"UPLOAD: /tmp/a.txt".to_vec()));
    assert!(matches!(&session, Session::UploadOpening { path } if path == "/tmp/a.txt"));
    assert_eq!(reaction, quiet(Request::CreateFile(path())));
}

#[test]
fn download_command_asks_for_the_file_to_be_opened() {
    let (session, reaction) = handle_message(b"DOWNLOAD: /tmp/a.txt".to_vec());
    assert!(matches!(&session, Session::DownloadOpening { path } if path == "/tmp/a.txt"));
    assert_eq!(reaction, quiet(Request::OpenFile(path())));
}

#[test]
fn status_command_asks_for_the_status() {
    let (session, reaction) = handle_message(b"STATUS".to_vec());
    assert!(matches!(session, Session::StatusPending));
    assert_eq!(reaction, quiet(Request::QueryStatus));
}

#[test]
fn exit_command_stops_without_a_reply() {
    let (session, _) = Session::start();
    let (session, reaction) = session.step(Event::Received(b"EXIT: ".to_vec()));
    assert!(matches!(session, Session::Stopped));
    assert!(session.is_over());
    assert_eq!(reaction, quiet(Request::Stop));
}

#[test]
fn closed_connection_stops_without_a_reply() {
    let (session, _) = Session::start();
    let (session, reaction) = session.step(Event::Received(Vec::new()));
    assert!(matches!(session, Session::Stopped));
    assert_eq!(reaction, quiet(Request::Stop));
}

#[test]
fn unknown_message_is_logged_and_the_next_one_awaited() {
    let (session, _) = Session::start();
    let (session, reaction) = session.step(Event::Received(b"HELLO".to_vec()));
    assert!(matches!(session, Session::Idle));
    assert!(!session.is_over());
    assert_eq!(
        reaction,
        Reaction {
            reply: None,
            log: Some("Unknown message: HELLO".to_string()),
            request: Request::ReadCommand,
        }
    );
    let (session, reaction) = session.step(Event::Received(b"STATUS".to_vec()));
    assert!(matches!(session, Session::StatusPending));
    assert_eq!(reaction, quiet(Request::QueryStatus));
}

#[test]
fn upload_awaits_its_bytes_once_the_file_is_there() {
    let (session, reaction) = handle_upload(Session::UploadOpening { path: path() }, Event::Opened);
    assert!(matches!(&session, Session::UploadReceiving { path } if path == "/tmp/a.txt"));
    assert_eq!(reaction, quiet(Request::ReadPayload));
}

#[test]
fn upload_reports_a_file_that_cannot_be_created() {
    let (session, reaction) = handle_upload(
        Session::UploadOpening { path: path() },
        Event::Failed("Permission denied (os error 13)".to_string()),
    );
    assert!(matches!(session, Session::Idle));
    assert_eq!(
        reaction,
        saying(
            b"Failed to open file /tmp/a.txt: Permission denied (os error 13)\n",
            Request::ReadCommand
        )
    );
}

#[test]
fn upload_writes_what_arrived() {
    let (session, reaction) = handle_upload(
        Session::UploadReceiving { path: path() },
        Event::Received(b"hello".to_vec()),
    );
    assert!(matches!(&session, Session::UploadWriting { path } if path == "/tmp/a.txt"));
    assert_eq!(reaction, quiet(Request::WriteFile(b"hello".to_vec())));
}

#[test]
fn upload_writes_no_more_than_one_chunk() {
    let data: Vec<u8> = (0..2000usize).map(|i| (i % 253) as u8).collect();
    let (session, reaction) =
        handle_upload(Session::UploadReceiving { path: path() }, Event::Received(data.clone()));
    assert!(matches!(session, Session::UploadWriting { .. }));
    assert_eq!(reaction, quiet(Request::WriteFile(data[..1024].to_vec())));
}

#[test]
fn upload_writes_a_whole_chunk() {
    let data: Vec<u8> = vec![7u8; 1024];
    let (_, reaction) =
        handle_upload(Session::UploadReceiving { path: path() }, Event::Received(data.clone()));
    assert_eq!(reaction, quiet(Request::WriteFile(data)));
}

#[test]
fn upload_without_bytes_ends_without_a_word() {
    let (session, reaction) =
        handle_upload(Session::UploadReceiving { path: path() }, Event::Received(Vec::new()));
    assert!(matches!(session, Session::Idle));
    assert_eq!(reaction, quiet(Request::ReadCommand));
}

#[test]
fn upload_confirms_and_goes_on_to_the_digest() {
    let (session, reaction) = handle_upload(Session::UploadWriting { path: path() }, Event::Written);
    assert!(matches!(session, Session::DigestOpening { .. }));
    assert_eq!(reaction, saying(b"File saved successfully\n", Request::OpenFile(path())));
}

#[test]
fn upload_reports_a_write_that_failed() {
    let (session, reaction) = handle_upload(
        Session::UploadWriting { path: path() },
        Event::Failed("No space left on device (os error 28)".to_string()),
    );
    assert!(matches!(session, Session::Idle));
    assert_eq!(
        reaction,
        saying(
            b"Failed to write file /tmp/a.txt: No space left on device (os error 28)\n",
            Request::ReadCommand
        )
    );
}

#[test]
fn download_reads_once_the_file_is_open() {
    let (session, reaction) =
        handle_download(Session::DownloadOpening { path: path() }, Event::Opened);
    assert!(matches!(&session, Session::DownloadSending { path } if path == "/tmp/a.txt"));
    assert_eq!(reaction, quiet(Request::ReadFile));
}

#[test]
fn download_reports_a_file_that_cannot_be_opened() {
    let (session, reaction) = handle_download(
        Session::DownloadOpening { path: path() },
        Event::Failed("No such file or directory (os error 2)".to_string()),
    );
    assert!(matches!(session, Session::Idle));
    assert_eq!(
        reaction,
        saying(
            b"Failed to open file /tmp/a.txt: No such file or directory (os error 2)\n",
            Request::ReadCommand
        )
    );
}

#[test]
fn download_sends_each_chunk_as_it_is() {
    let chunk: Vec<u8> = vec![0, 255, 10, 13, 0x80];
    let (session, reaction) =
        handle_download(Session::DownloadSending { path: path() }, Event::Data(chunk.clone()));
    assert!(matches!(&session, Session::DownloadSending { path } if path == "/tmp/a.txt"));
    assert_eq!(reaction, saying(&chunk, Request::ReadFile));
}

#[test]
fn download_goes_on_to_the_digest_at_the_end_of_the_file() {
    let (session, reaction) =
        handle_download(Session::DownloadSending { path: path() }, Event::Data(Vec::new()));
    assert!(matches!(session, Session::DigestOpening { .. }));
    assert_eq!(reaction, quiet(Request::OpenFile(path())));
}

#[test]
fn download_reports_a_read_that_failed() {
    let (session, reaction) = handle_download(
        Session::DownloadSending { path: path() },
        Event::Failed("Is a directory (os error 21)".to_string()),
    );
    assert!(matches!(session, Session::Idle));
    assert_eq!(
        reaction,
        saying(
            b"Failed to read file /tmp/a.txt: Is a directory (os error 21)\n",
            Request::ReadCommand
        )
    );
}

#[test]
fn digest_of_an_upload_is_sent_on_a_line() {
    let (session, _) = handle_upload(Session::UploadWriting { path: path() }, Event::Written);
    let (session, reaction) = handle_digest(session, Event::Opened);
    assert!(matches!(session, Session::Digesting { .. }));
    assert_eq!(reaction, quiet(Request::ReadFile));
    let (session, reaction) = session.step(Event::Data(b"hello".to_vec()));
    assert!(matches!(session, Session::Digesting { .. }));
    assert_eq!(reaction, quiet(Request::ReadFile));
    let (session, reaction) = session.step(Event::Data(Vec::new()));
    assert!(matches!(session, Session::Idle));
    let line = format!("File hash: {}\n", file_agent::digest::calculate_hash(b"hello"));
    assert_eq!(reaction, saying(line.as_bytes(), Request::ReadCommand));
}

#[test]
fn digest_of_a_download_follows_a_line_break() {
    let (session, _) =
        handle_download(Session::DownloadSending { path: path() }, Event::Data(Vec::new()));
    let (session, _) = session.step(Event::Opened);
    let (session, _) = session.step(Event::Data(vec![9u8; 1024]));
    let (session, _) = session.step(Event::Data(vec![9u8; 10]));
    let (session, reaction) = session.step(Event::Data(Vec::new()));
    assert!(matches!(session, Session::Idle));
    let line = format!("\nFile hash: {}\n", file_agent::digest::calculate_hash(&vec![9u8; 1034]));
    assert_eq!(reaction, saying(line.as_bytes(), Request::ReadCommand));
}

#[test]
fn digest_gives_up_when_the_file_cannot_be_opened() {
    let (session, _) = handle_upload(Session::UploadWriting { path: path() }, Event::Written);
    let (session, reaction) = session.step(Event::Failed("gone".to_string()));
    assert!(matches!(session, Session::Aborted));
    assert!(session.is_over());
    assert_eq!(reaction, quiet(Request::Abort));
}

#[test]
fn digest_gives_up_when_the_file_cannot_be_read() {
    let (session, _) = handle_upload(Session::UploadWriting { path: path() }, Event::Written);
    let (session, _) = session.step(Event::Opened);
    let (session, _) = session.step(Event::Data(b"abc".to_vec()));
    let (session, reaction) = session.step(Event::Failed("Input/output error".to_string()));
    assert!(matches!(session, Session::Aborted));
    assert_eq!(reaction, quiet(Request::Abort));
}

#[test]
fn status_is_sent_as_its_report() {
    let record = StatusRecord::from_readings(Some("Arch".to_string()), None, 10, 5, 2, 1);
    let (session, reaction) = handle_status(Session::StatusPending, Event::Status(record));
    assert!(matches!(session, Session::Idle));
    assert_eq!(
        reaction,
        saying(
            b"Operating System Name: Arch\nOperating System Version: Unknown\n\
              Total Memory: 10 kB\nUsed Memory: 5 kB\nTotal Swap: 2 kB\nUsed Swap: 1 kB\n",
            Request::ReadCommand
        )
    );
}

#[test]
fn an_event_that_answers_nothing_makes_the_session_give_up() {
    let (session, _) = Session::start();
    let (session, reaction) = session.step(Event::Opened);
    assert!(matches!(session, Session::Aborted));
    assert_eq!(reaction, quiet(Request::Abort));

    let (session, reaction) =
        handle_upload(Session::UploadReceiving { path: path() }, Event::Written);
    assert!(matches!(session, Session::Aborted));
    assert_eq!(reaction, quiet(Request::Abort));

    let (session, reaction) =
        handle_download(Session::DownloadSending { path: path() }, Event::Received(vec![1]));
    assert!(matches!(session, Session::Aborted));
    assert_eq!(reaction, quiet(Request::Abort));

    let (session, reaction) = handle_status(Session::StatusPending, Event::Opened);
    assert!(matches!(session, Session::Aborted));
    assert_eq!(reaction, quiet(Request::Abort));
}

#[test]
fn a_handler_gives_up_on_a_session_that_is_not_its_own() {
    let (session, reaction) = handle_upload(Session::Idle, Event::Opened);
    assert!(matches!(session, Session::Aborted));
    assert_eq!(reaction, quiet(Request::Abort));
    let (session, _) = handle_download(Session::UploadOpening { path: path() }, Event::Opened);
    assert!(matches!(session, Session::Aborted));
    let (session, _) = handle_digest(Session::StatusPending, Event::Opened);
    assert!(matches!(session, Session::Aborted));
}

#[test]
fn a_stopped_session_stays_stopped() {
    let (session, _) = handle_message(b"EXIT: ".to_vec());
    let (session, reaction) = session.step(Event::Received(b"STATUS".to_vec()));
    assert!(matches!(session, Session::Stopped));
    assert_eq!(reaction, quiet(Request::Stop));
    let (session, reaction) = session.step(Event::Opened);
    assert!(matches!(session, Session::Stopped));
    assert_eq!(reaction, quiet(Request::Stop));
}

#[test]
fn a_session_that_gave_up_stays_so() {
    let (session, _) = Session::start();
    let (session, _) = session.step(Event::Written);
    let (session, reaction) = session.step(Event::Received(b"STATUS".to_vec()));
    assert!(matches!(session, Session::Aborted));
    assert_eq!(reaction, quiet(Request::Abort));
}
