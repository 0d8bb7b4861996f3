use pandora_toolchain::coordinator::CancelRequest;
use pandora_toolchain::env::{
    add_env, get_env, get_perm, is_authorized, lines, permission_class, permission_file,
    PermissionClass, ENV_LINES, PNCURL, PNMPEG, PNP2P, TOKEN,
};
use pandora_toolchain::nyaaise::TorrentType;
use pandora_toolchain::request::{
    cancel_from_reaction, check_request, command_word, concat_id, is_usable, job_from_request,
    preset_from_choice, request_error_text, text_command, RequestError, TextCommand,
};
use pandora_toolchain::stage::{Preset, Stage};

#[test]
fn a_text_is_read_line_by_line() {
    assert_eq!(lines("a\nb\r\nc"), vec!["a", "b", "c"]);
    assert_eq!(lines("a\n"), vec!["a"]);
    assert_eq!(lines("a\n\n"), vec!["a", ""]);
    assert_eq!(lines("\n"), vec![""]);
    assert_eq!(lines(""), Vec::<String>::new());
    assert_eq!(lines("a\r"), vec!["a\r"]);
    assert_eq!(lines("a\r\r\nb"), vec!["a\r", "b"]);
    for text in ["x\ny\r\n\nz", "", "\r\n", "one"] {
        let expected: Vec<String> = text.lines().map(|l| l.to_string()).collect();
        assert_eq!(lines(text), expected);
    }
}

#[test]
fn an_environment_file_needs_ten_lines() {
    assert_eq!(ENV_LINES, 10);
    let nine = "0\n1\n2\n3\n4\n5\n6\n7\n8\n";
    assert!(get_env(nine).is_empty());
    let ten = "id\nsecret\nrefresh\nurl\ntoken\nupload\n/bin/pncurl\n/bin/pnmpeg\n/bin/pnp2p\nlast";
    let env = get_env(ten);
    assert_eq!(env.len(), 10);
    assert_eq!(env[TOKEN], "token");
    assert_eq!(env[PNCURL], "/bin/pncurl");
    assert_eq!(env[PNMPEG], "/bin/pnmpeg");
    assert_eq!(env[PNP2P], "/bin/pnp2p");
    assert_eq!(get_perm(nine).len(), 9);
    assert_eq!(add_env("12345"), "12345\n");
}

#[test]
fn commands_ask_for_a_class_of_permission() {
    assert_eq!(permission_class("!enc"), Some(PermissionClass::Authorized));
    assert_eq!(permission_class("/encode"), Some(PermissionClass::Authorized));
    assert_eq!(permission_class("!authorize"), Some(PermissionClass::Admin));
    assert_eq!(permission_class("!auth"), Some(PermissionClass::Admin));
    assert_eq!(permission_class("!encode"), None);
    assert_eq!(permission_class(""), None);
    assert_eq!(permission_file(PermissionClass::Authorized), "authorize.pandora");
    assert_eq!(permission_file(PermissionClass::Admin), "admin.pandora");
    let members = get_perm("12\n345\n");
    assert!(is_authorized("!enc", 345, &members));
    assert!(is_authorized("!auth", 12, &members));
    assert!(!is_authorized("!enc", 34, &members));
    assert!(!is_authorized("!enc", 3450, &members));
    assert!(!is_authorized("hello", 345, &members));
    assert!(!is_authorized("!enc", 345, &vec![]));
}

#[test]
fn text_messages_are_read_word_by_word() {
    assert!(matches!(text_command("!enc https://x gpu"), TextCommand::Encode));
    match text_command("  !authorize   42 ") {
        TextCommand::Authorize(who) => assert_eq!(who, "42"),
        _ => panic!("expected an authorization"),
    }
    match text_command("!auth\n<@7>") {
        TextCommand::Authorize(who) => assert_eq!(who, "<@7>"),
        _ => panic!("expected an authorization"),
    }
    assert!(matches!(text_command("!authorize"), TextCommand::Ignore));
    assert!(matches!(text_command(""), TextCommand::Ignore));
    assert!(matches!(text_command("hello !enc"), TextCommand::Ignore));
    assert!(matches!(text_command("!encode x"), TextCommand::Ignore));
    assert_eq!(command_word("  !auth 42"), Some("!auth".to_string()));
    assert_eq!(command_word("\u{3000}!enc\u{2003}x"), Some("!enc".to_string()));
    assert_eq!(command_word(" \n "), None);
    assert_eq!(command_word(""), None);
}

#[test]
fn the_choice_of_preset_falls_back_to_pseudo_lossless() {
    assert_eq!(preset_from_choice(Some("gpu"), Some(1)), Preset::Gpu(Some(1)));
    assert_eq!(preset_from_choice(Some("standard"), None), Preset::Standard(None));
    assert_eq!(preset_from_choice(None, Some(2)), Preset::Standard(Some(2)));
    assert_eq!(preset_from_choice(Some("pseudolossless"), None), Preset::PseudoLossless(None));
    assert_eq!(preset_from_choice(Some("GPU"), None), Preset::PseudoLossless(None));
    assert_eq!(concat_id(1), 1);
    assert_eq!(concat_id(-1), -1);
    assert_eq!(concat_id(65537), 1);
    assert_eq!(concat_id(32768), -32768);
}

#[test]
fn only_a_cross_from_someone_else_cancels() {
    assert_eq!(
        cancel_from_reaction(5, 1, "❌", 10, 20),
        Some(CancelRequest { user_id: 5, channel_id: 10, response_id: 20 })
    );
    assert_eq!(cancel_from_reaction(1, 1, "❌", 10, 20), None);
    assert_eq!(cancel_from_reaction(5, 1, "✅", 10, 20), None);
    assert_eq!(cancel_from_reaction(5, 1, "", 10, 20), None);
}

#[test]
fn requests_are_checked_before_a_job_is_made() {
    assert_eq!(check_request(true, "https://x", true), Ok(()));
    assert_eq!(check_request(false, "", false), Err(RequestError::Unauthorized));
    assert_eq!(check_request(true, "", false), Err(RequestError::EmptyUrl));
    assert_eq!(check_request(true, "x", false), Err(RequestError::MissingAttachment));
    assert_eq!(request_error_text(RequestError::EmptyUrl), "Error: Torrent URL is required");
    assert_eq!(request_error_text(RequestError::MissingAttachment), "Error: Subtitle file is required");
    assert_eq!(request_error_text(RequestError::Unauthorized), "Error: Not authorized");
    assert!(is_usable(&TorrentType::Link("https://x".to_string())));
    assert!(!is_usable(&TorrentType::Link(String::new())));
    assert!(is_usable(&TorrentType::Magnet("magnet:?x".to_string())));
    let job = job_from_request(1, 2, 3, 4, Preset::Gpu(None), "https://nyaa.si/view/99/torrent", 5, "/b");
    assert_eq!(job.torrent.get(), "https://nyaa.si/download/99.torrent");
    assert_eq!(job.directory, "/b/DB/1-4-5");
    assert_eq!(job.ready, Stage::Queued);
    assert_eq!((job.author, job.channel_id, job.response_id, job.job_id), (1, 2, 3, 4));
    let bad = job_from_request(1, 2, 3, 4, Preset::Gpu(None), "ftp://x", 5, "/b");
    assert!(!is_usable(&bad.torrent));
}
