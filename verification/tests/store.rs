use kitsune_core::json::{parse_document, Json, Member};
use kitsune_core::session::{DownloadPart, DownloadSession, DownloadState};
use kitsune_core::store::{decode_session, encode_session, LoadError};

fn sample() -> DownloadSession {
    DownloadSession {
        url: String::from("https://example.org/a/file.bin?x=1"),
        output_path: String::from("/home/u/Downloads/file \"one\".bin"),
        total_size: Some(1000),
        state: DownloadState::Downloading,
        parts: vec![
            DownloadPart { id: 0, start_byte: 0, end_byte: 499, current_byte: 120, completed: false },
            DownloadPart { id: 1, start_byte: 500, end_byte: 999, current_byte: 1000, completed: true },
        ],
        connections: 2,
    }
}

fn same(a: &DownloadSession, b: &DownloadSession) -> bool {
    a.url == b.url
        && a.output_path == b.output_path
        && a.total_size == b.total_size
        && a.state == b.state
        && a.parts == b.parts
        && a.connections == b.connections
}

#[test]
fn session_text_is_exact() {
    let mut session = sample();
    session.parts.truncate(1);
    let text = session.save();
    let expected = r#"{
  "url": "https://example.org/a/file.bin?x=1",
  "output_path": "/home/u/Downloads/file \"one\".bin",
  "total_size": 1000,
  "state": "Downloading",
  "parts": [
    {
      "id": 0,
      "start_byte": 0,
      "end_byte": 499,
      "current_byte": 120,
      "completed": false
    }
  ],
  "connections": 2
}"#;
    assert_eq!(text, expected);
}

#[test]
fn save_then_load_gives_the_session_back() {
    let session = sample();
    let loaded = DownloadSession::load(Some(&session.save())).expect("the text holds a session");
    assert!(same(&session, &loaded));
}

#[test]
fn round_trip_of_every_state_and_of_an_unknown_size() {
    let states = vec![
        DownloadState::Pending,
        DownloadState::Downloading,
        DownloadState::Paused,
        DownloadState::Completed,
        DownloadState::Error(String::from("worker 3 failed: \u{2713} \n done")),
    ];
    for state in states {
        let mut session = sample();
        session.state = state;
        session.total_size = None;
        session.parts = vec![DownloadPart {
            id: 255,
            start_byte: 0,
            end_byte: u64::MAX,
            current_byte: u64::MAX,
            completed: false,
        }];
        session.connections = 255;
        let text = session.save();
        let loaded = DownloadSession::load(Some(&text)).expect("the text holds a session");
        assert!(same(&session, &loaded));
        let doc = encode_session(&session);
        let decoded = decode_session(&doc).expect("the document holds a session");
        assert!(same(&session, &decoded));
    }
}

#[test]
fn error_state_is_an_object() {
    let mut session = sample();
    session.state = DownloadState::Error(String::from("boom"));
    session.total_size = None;
    let text = session.save();
    assert!(text.contains("\"state\": {\n    \"Error\": \"boom\"\n  }"));
    assert!(text.contains("\"total_size\": null"));
}

#[test]
fn missing_file_and_bad_text_are_told_apart() {
    assert_eq!(DownloadSession::load(None).unwrap_err(), LoadError::Missing);
    assert_eq!(DownloadSession::load(Some("{ not json")).unwrap_err(), LoadError::Corrupted);
    assert_eq!(DownloadSession::load(Some("")).unwrap_err(), LoadError::Corrupted);
    assert_eq!(DownloadSession::load(Some("[1, 2, 3]")).unwrap_err(), LoadError::Corrupted);
}

#[test]
fn documents_that_hold_no_session_are_rejected() {
    let good = sample().save();
    assert!(DownloadSession::load(Some(&good)).is_ok());
    // A negative or fractional number is no offset.
    let negative = good.replace("\"current_byte\": 120", "\"current_byte\": -1");
    assert_eq!(DownloadSession::load(Some(&negative)).unwrap_err(), LoadError::Corrupted);
    let fraction = good.replace("\"current_byte\": 120", "\"current_byte\": 1.5");
    assert_eq!(DownloadSession::load(Some(&fraction)).unwrap_err(), LoadError::Corrupted);
    // An id does not fit a byte.
    let wide = good.replace("\"id\": 1,", "\"id\": 256,");
    assert_eq!(DownloadSession::load(Some(&wide)).unwrap_err(), LoadError::Corrupted);
    // An unknown state.
    let state = good.replace("\"Downloading\"", "\"Running\"");
    assert_eq!(DownloadSession::load(Some(&state)).unwrap_err(), LoadError::Corrupted);
    // A member is missing.
    let missing = good.replace("\"connections\": 2", "\"links\": 2");
    assert_eq!(DownloadSession::load(Some(&missing)).unwrap_err(), LoadError::Corrupted);
    // A size that is left out stands for an unknown size.
    let no_size = good.replace("  \"total_size\": 1000,\n", "");
    let loaded = DownloadSession::load(Some(&no_size)).expect("the size may be left out");
    assert_eq!(loaded.total_size, None);
}

#[test]
fn members_are_read_in_any_order() {
    let text = r#"{"connections": 1, "parts": [], "state": {"Error": "x"}, "total_size": null,
                   "output_path": "o", "url": "u", "extra": [true, {"k": 0.25}]}"#;
    let session = DownloadSession::load(Some(text)).expect("the text holds a session");
    assert_eq!(session.url, "u");
    assert_eq!(session.output_path, "o");
    assert_eq!(session.state, DownloadState::Error(String::from("x")));
    assert!(session.parts.is_empty());
    assert_eq!(session.connections, 1);
}

#[test]
fn parsing_keeps_the_shape_of_a_document() {
    let doc = parse_document(r#"{"a": [1, -2, 2.5, "t", null, true], "b": {}}"#).expect("json");
    let expected = Json::Object(vec![
        Member {
            name: String::from("a"),
            value: Json::List(vec![
                Json::Number(1),
                Json::Decimal(String::from("-2")),
                Json::Decimal(String::from("2.5")),
                Json::Text(String::from("t")),
                Json::Null,
                Json::Bool(true),
            ]),
        },
        Member { name: String::from("b"), value: Json::Object(vec![]) },
    ]);
    assert_eq!(doc, expected);
    assert!(parse_document("{").is_none());
}
