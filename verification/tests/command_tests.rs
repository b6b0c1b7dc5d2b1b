use file_agent::command::parse_command;
use file_agent::command::parse_message;
use file_agent::command::Command;

#[test]
fn upload_takes_the_rest_as_path() {
    assert_eq!(parse_command("UPLOAD: /tmp/a.txt"), Command::Upload("/tmp/a.txt".to_string()));
}

#[test]
fn download_takes_the_rest_as_path() {
    assert_eq!(parse_command("DOWNLOAD: data/b.bin"), Command::Download("data/b.bin".to_string()));
}

#[test]
fn path_is_taken_as_it_is() {
    assert_eq!(parse_command("UPLOAD:  a b \n"), Command::Upload(" a b \n".to_string()));
    assert_eq!(parse_command("DOWNLOAD: "), Command::Download(String::new()));
    assert_eq!(parse_command("UPLOAD: "), Command::Upload(String::new()));
}

#[test]
fn path_may_hold_any_characters() {
    assert_eq!(
        parse_command("UPLOAD: /tmp/\u{e9}t\u{e9}/\u{1F600}.txt"),
        Command::Upload("/tmp/\u{e9}t\u{e9}/\u{1F600}.txt".to_string())
    );
}

#[test]
fn exit_needs_its_colon_and_space() {
    assert_eq!(parse_command("EXIT: "), Command::Exit);
    assert_eq!(parse_command("EXIT: now"), Command::Exit);
    assert_eq!(parse_command("EXIT:"), Command::Unknown("EXIT:".to_string()));
    assert_eq!(parse_command("EXIT"), Command::Unknown("EXIT".to_string()));
}

#[test]
fn status_needs_only_to_begin_the_message() {
    assert_eq!(parse_command("STATUS"), Command::Status);
    assert_eq!(parse_command("STATUS\n"), Command::Status);
    assert_eq!(parse_command("STATUSES"), Command::Status);
    assert_eq!(parse_command("STATU"), Command::Unknown("STATU".to_string()));
}

#[test]
fn verbs_are_case_sensitive() {
    assert_eq!(parse_command("upload: /tmp/a"), Command::Unknown("upload: /tmp/a".to_string()));
    assert_eq!(parse_command("Download: x"), Command::Unknown("Download: x".to_string()));
    assert_eq!(parse_command("status"), Command::Unknown("status".to_string()));
    assert_eq!(parse_command("exit: "), Command::Unknown("exit: ".to_string()));
}

#[test]
fn verbs_must_begin_the_message() {
    assert_eq!(parse_command(" UPLOAD: a"), Command::Unknown(" UPLOAD: a".to_string()));
    assert_eq!(parse_command("xSTATUS"), Command::Unknown("xSTATUS".to_string()));
}

#[test]
fn verb_without_its_space_is_unknown() {
    assert_eq!(parse_command("UPLOAD:/tmp/a"), Command::Unknown("UPLOAD:/tmp/a".to_string()));
    assert_eq!(parse_command("DOWNLOAD:"), Command::Unknown("DOWNLOAD:".to_string()));
}

#[test]
fn empty_text_is_unknown() {
    assert_eq!(parse_command(""), Command::Unknown(String::new()));
}

#[test]
fn anything_else_is_unknown_and_kept_whole() {
    assert_eq!(parse_command("HELLO there"), Command::Unknown("HELLO there".to_string()));
}

#[test]
fn message_bytes_are_read_as_utf8() {
    assert_eq!(parse_message(b"UPLOAD: /tmp/a.txt"), Command::Upload("/tmp/a.txt".to_string()));
    assert_eq!(parse_message(b"STATUS"), Command::Status);
    assert_eq!(parse_message(b"EXIT: "), Command::Exit);
    assert_eq!(
        parse_message("DOWNLOAD: \u{e9}".as_bytes()),
        Command::Download("\u{e9}".to_string())
    );
}

#[test]
fn invalid_bytes_in_a_path_are_replaced() {
    assert_eq!(
        parse_message(b"UPLOAD: /tmp/\xff.txt"),
        Command::Upload("/tmp/\u{FFFD}.txt".to_string())
    );
    assert_eq!(
        parse_message(b"DOWNLOAD: a\xc3"),
        Command::Download("a\u{FFFD}".to_string())
    );
}

#[test]
fn invalid_bytes_before_a_verb_make_it_unknown() {
    assert_eq!(parse_message(b"\xffSTATUS"), Command::Unknown("\u{FFFD}STATUS".to_string()));
}

#[test]
fn invalid_bytes_after_a_verb_do_not_hide_it() {
    assert_eq!(parse_message(b"STATUS\xff\xfe"), Command::Status);
    assert_eq!(parse_message(b"EXIT: \x80"), Command::Exit);
}
