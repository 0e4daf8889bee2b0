use kitsune_core::native_messaging::{
    classify_frame, handle_command, launch_response, terminal_invocations, Command, Frame,
    Reaction, MAX_FRAME_LENGTH, RAW_JSON_THRESHOLD,
};

#[test]
fn ping_is_answered_with_pong() {
    match handle_command(Command::Ping) {
        Reaction::Reply(response) => {
            assert!(response.success);
            assert_eq!(response.message, "Pong");
        }
        other => panic!("unexpected reaction: {:?}", other),
    }
}

#[test]
fn download_is_handed_to_a_terminal() {
    match handle_command(Command::AddDownload { url: String::from("http://host/f") }) {
        Reaction::Launch { url } => assert_eq!(url, "http://host/f"),
        other => panic!("unexpected reaction: {:?}", other),
    }
    let attempts = terminal_invocations("/usr/bin/kitsune", "http://host/f");
    let seen: Vec<(String, Vec<String>)> =
        attempts.into_iter().map(|a| (a.program, a.args)).collect();
    let list = |items: &[&str]| items.iter().map(|i| i.to_string()).collect::<Vec<String>>();
    assert_eq!(
        seen,
        vec![
            (String::from("alacritty"), list(&["-e", "/usr/bin/kitsune", "http://host/f"])),
            (
                String::from("x-terminal-emulator"),
                list(&["-e", "/usr/bin/kitsune \"http://host/f\""])
            ),
            (String::from("gnome-terminal"), list(&["--", "/usr/bin/kitsune", "http://host/f"])),
        ]
    );
}

#[test]
fn launch_outcome_is_reported() {
    let ok = launch_response(None);
    assert!(ok.success);
    assert_eq!(ok.message, "Download started in terminal");
    let failed = launch_response(Some("No such file or directory (os error 2)"));
    assert!(!failed.success);
    assert_eq!(
        failed.message,
        "Failed to launch terminal: No such file or directory (os error 2). Install x-terminal-emulator."
    );
}

#[test]
fn frames_are_sorted() {
    assert_eq!(MAX_FRAME_LENGTH, 10 * 1024 * 1024);
    assert_eq!(RAW_JSON_THRESHOLD, 1_000_000);
    assert_eq!(classify_frame(0, 0), Frame::Empty);
    assert_eq!(classify_frame(b'{', 0), Frame::Empty);
    assert_eq!(classify_frame(5, 5), Frame::Body { length: 5 });
    assert_eq!(classify_frame(0, MAX_FRAME_LENGTH), Frame::Body { length: MAX_FRAME_LENGTH });
    assert_eq!(classify_frame(0, MAX_FRAME_LENGTH + 1), Frame::TooLarge);
    assert_eq!(classify_frame(b'{', 1_000_000), Frame::Body { length: 1_000_000 });
    assert_eq!(classify_frame(b'{', 1_000_001), Frame::RawJson);
    // `{"co` read as a length in either byte order.
    assert_eq!(classify_frame(b'{', u32::from_le_bytes(*b"{\"co")), Frame::RawJson);
    assert_eq!(classify_frame(b'{', u32::from_be_bytes(*b"{\"co")), Frame::RawJson);
    assert_eq!(classify_frame(b'[', u32::from_le_bytes(*b"[1,2")), Frame::TooLarge);
}
