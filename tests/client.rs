use am_presence::activity::{Activity, Timestamps};
use am_presence::client::{
    command_json, decode_frame, handshake_json, Action, DiscordIpcClient, Event,
};
use am_presence::codec::{pack, unpack};
use am_presence::transport::{candidate_path, env_keys, resolve_base_dir};
use am_presence::RichPresenceError;

fn base_values(dir: &str) -> Vec<Option<String>> {
    vec![Some(dir.to_string()), None, None, None]
}

fn frame(tag: u32, body: &str) -> (Vec<u8>, Vec<u8>) {
    (pack(tag, body.len() as u32), body.as_bytes().to_vec())
}

/// Runs the client until its operation finishes, answering each action with
/// `answer`; returns the actions asked for and the operation's result.
fn drive(
    client: &mut DiscordIpcClient,
    first: Action,
    mut answer: impl FnMut(&Action) -> Event,
) -> (Vec<Action>, Result<(), RichPresenceError>) {
    let mut actions = Vec::new();
    let mut action = first;
    for _ in 0..100 {
        if let Action::Finished(result) = action {
            return (actions, result);
        }
        let event = answer(&action);
        actions.push(action);
        action = client.advance(event);
    }
    panic!("operation did not finish");
}

/// A peer at `/run/user/1` that accepts every socket and replies `{}` to the handshake.
fn friendly_peer() -> impl FnMut(&Action) -> Event {
    let (reply_header, reply) = frame(1, "{}");
    move |action: &Action| match action {
        Action::LookUpBaseDir => Event::BaseDirValues(base_values("/run/user/1")),
        Action::Read(8) => Event::Received(reply_header.clone()),
        Action::Read(_) => Event::Received(reply.clone()),
        _ => Event::Succeeded,
    }
}

fn connected_client() -> DiscordIpcClient {
    let mut client = DiscordIpcClient::new("123");
    let first = client.connect();
    let (_, result) = drive(&mut client, first, friendly_peer());
    assert_eq!(result, Ok(()));
    client
}

fn count_lookups(actions: &[Action]) -> usize {
    actions.iter().filter(|a| matches!(a, Action::LookUpBaseDir)).count()
}

#[test]
fn connect_sends_handshake_and_reads_reply() {
    let mut client = DiscordIpcClient::new("123");
    let first = client.connect();
    let (actions, result) = drive(&mut client, first, friendly_peer());
    assert_eq!(result, Ok(()));
    let body = r#"{"v":1,"client_id":"123"}"#;
    assert_eq!(handshake_json("123"), body);
    assert!(matches!(&actions[0], Action::LookUpBaseDir));
    assert!(matches!(&actions[1], Action::Connect(p) if p == "/run/user/1/discord-ipc-0"));
    assert!(matches!(&actions[2], Action::Write(h) if *h == pack(0, body.len() as u32)));
    assert!(matches!(&actions[3], Action::Write(b) if b.as_slice() == body.as_bytes()));
    assert!(matches!(&actions[4], Action::Read(8)));
    assert!(matches!(&actions[5], Action::Read(2)));
    assert_eq!(actions.len(), 6);
}

#[test]
fn third_variable_alone_names_the_directory() {
    let values = vec![None, Some(String::new()), Some("/tmp/three".to_string()), None];
    assert_eq!(resolve_base_dir(&values), Some("/tmp/three".to_string()));
    assert_eq!(env_keys()[2], "TMP");
    assert_eq!(env_keys().len(), 4);
}

#[test]
fn first_set_variable_wins() {
    let values = vec![
        Some("/run/user/1000".to_string()),
        Some("/tmp".to_string()),
        None,
        Some("/temp".to_string()),
    ];
    assert_eq!(resolve_base_dir(&values), Some("/run/user/1000".to_string()));
}

#[test]
fn no_directory_fails_without_probing() {
    let mut client = DiscordIpcClient::new("123");
    let first = client.connect();
    let (actions, result) = drive(&mut client, first, |_| {
        Event::BaseDirValues(vec![None, None, Some(String::new()), None])
    });
    assert_eq!(result, Err(RichPresenceError::CouldNotConnect));
    assert_eq!(actions.len(), 1);
    assert!(!actions.iter().any(|a| matches!(a, Action::Connect(_))));
}

#[test]
fn probes_ascend_and_stop_at_first_success() {
    let mut client = DiscordIpcClient::new("123");
    let first = client.connect();
    let (reply_header, reply) = frame(1, "{}");
    let (actions, result) = drive(&mut client, first, |action| match action {
        Action::LookUpBaseDir => Event::BaseDirValues(base_values("/tmp/")),
        Action::Connect(p) if p != "/tmp/discord-ipc-3" => Event::Failed,
        Action::Read(8) => Event::Received(reply_header.clone()),
        Action::Read(_) => Event::Received(reply.clone()),
        _ => Event::Succeeded,
    });
    assert_eq!(result, Ok(()));
    let probed: Vec<&String> = actions
        .iter()
        .filter_map(|a| match a {
            Action::Connect(p) => Some(p),
            _ => None,
        })
        .collect();
    assert_eq!(
        probed,
        vec![
            "/tmp/discord-ipc-0",
            "/tmp/discord-ipc-1",
            "/tmp/discord-ipc-2",
            "/tmp/discord-ipc-3"
        ]
    );
}

#[test]
fn ten_refusals_end_in_could_not_connect() {
    let mut client = DiscordIpcClient::new("123");
    let first = client.connect();
    let (actions, result) = drive(&mut client, first, |action| match action {
        Action::LookUpBaseDir => Event::BaseDirValues(base_values("/run")),
        _ => Event::Failed,
    });
    assert_eq!(result, Err(RichPresenceError::CouldNotConnect));
    let probed: Vec<String> = actions
        .iter()
        .filter_map(|a| match a {
            Action::Connect(p) => Some(p.clone()),
            _ => None,
        })
        .collect();
    let expected: Vec<String> = (0..10).map(|i| format!("/run/discord-ipc-{i}")).collect();
    assert_eq!(probed, expected);
}

#[test]
fn candidate_paths() {
    assert_eq!(candidate_path("/tmp", 0), "/tmp/discord-ipc-0");
    assert_eq!(candidate_path("/tmp/", 9), "/tmp/discord-ipc-9");
}

#[test]
fn end_to_end_command_frame() {
    let activity = Activity::new()
        .details("Song")
        .state("Artist · Album")
        .timestamps(Timestamps::new().start(1000).end(1300));
    let nonce = "0f8fad5b-d9cb-469f-a165-70867728950e";
    assert_eq!(
        command_json(100, Some(&activity), nonce),
        [
            r#"{"cmd":"SET_ACTIVITY","args":{"pid":100,"activity":{"details":"Song","#,
            r#""state":"Artist · Album","timestamps":{"start":1000,"end":1300}}},"#,
            r#""nonce":"0f8fad5b-d9cb-469f-a165-70867728950e"}"#
        ].concat()
    );

    let mut client = connected_client();
    let first = client.set_activity(activity, 100);
    let (actions, result) = drive(&mut client, first, friendly_peer());
    assert_eq!(result, Ok(()));
    assert_eq!(actions.len(), 2);
    let (header, body) = match (&actions[0], &actions[1]) {
        (Action::Write(h), Action::Write(b)) => (h.clone(), b.clone()),
        _ => panic!("expected two writes"),
    };
    assert_eq!(unpack(&header), Ok((1, body.len() as u32)));
    let text = String::from_utf8(body).unwrap();
    let value: serde_json::Value = serde_json::from_str(&text).unwrap();
    let nonce = value["nonce"].as_str().unwrap();
    let uuid = uuid::Uuid::parse_str(nonce).unwrap();
    assert_eq!(uuid.get_version_num(), 4);
    assert_eq!(nonce, nonce.to_lowercase());
    let expected = [
        r#"{"cmd":"SET_ACTIVITY","args":{"pid":100,"activity":{"details":"Song","#,
        r#""state":"Artist · Album","timestamps":{"start":1000,"end":1300}}},"nonce":""#
    ].concat();
    assert_eq!(text, format!("{expected}{nonce}\"}}"));
}

#[test]
fn clear_activity_sends_null() {
    let mut client = connected_client();
    let first = client.clear_activity(7);
    let (actions, result) = drive(&mut client, first, friendly_peer());
    assert_eq!(result, Ok(()));
    let body = match &actions[1] {
        Action::Write(b) => String::from_utf8(b.clone()).unwrap(),
        _ => panic!("expected a write"),
    };
    let value: serde_json::Value = serde_json::from_str(&body).unwrap();
    assert_eq!(value["cmd"], "SET_ACTIVITY");
    assert_eq!(value["args"]["pid"], 7);
    assert!(value["args"]["activity"].is_null());
    assert!(body.starts_with(r#"{"cmd":"SET_ACTIVITY","args":{"pid":7,"activity":null},"nonce":""#));
}

#[test]
fn write_failing_once_reconnects_once_and_succeeds() {
    let mut client = connected_client();
    let first = client.set_activity(Activity::new().details("x"), 1);
    let mut writes = 0;
    let mut peer = friendly_peer();
    let (actions, result) = drive(&mut client, first, |action| {
        if let Action::Write(_) = action {
            writes += 1;
            if writes == 1 {
                return Event::Failed;
            }
        }
        peer(action)
    });
    assert_eq!(result, Ok(()));
    assert_eq!(count_lookups(&actions), 1);
}

#[test]
fn write_failing_twice_reconnects_once_and_fails() {
    let mut client = connected_client();
    let first = client.set_activity(Activity::new().details("x"), 1);
    let mut command_writes = 0;
    let mut peer = friendly_peer();
    let hs_header = pack(0, handshake_json("123").len() as u32);
    let (actions, result) = drive(&mut client, first, |action| {
        if let Action::Write(bytes) = action {
            let handshake = *bytes == hs_header || bytes.as_slice() == handshake_json("123").as_bytes();
            if !handshake {
                command_writes += 1;
                return Event::Failed;
            }
        }
        peer(action)
    });
    assert_eq!(result, Err(RichPresenceError::WriteSocketFailed));
    assert_eq!(count_lookups(&actions), 1);
    assert_eq!(command_writes, 2);
}

#[test]
fn write_without_stream_reconnects_first() {
    let mut client = DiscordIpcClient::new("123");
    let first = client.set_activity(Activity::new().details("x"), 1);
    assert!(matches!(first, Action::LookUpBaseDir));
    let (actions, result) = drive(&mut client, first, friendly_peer());
    assert_eq!(result, Ok(()));
    assert_eq!(count_lookups(&actions), 1);
}

#[test]
fn invalid_handshake_reply_is_rejected() {
    let mut client = DiscordIpcClient::new("123");
    let first = client.connect();
    let (bad_header, bad) = frame(1, "{not json");
    let (_, result) = drive(&mut client, first, |action| match action {
        Action::LookUpBaseDir => Event::BaseDirValues(base_values("/run")),
        Action::Read(8) => Event::Received(bad_header.clone()),
        Action::Read(_) => Event::Received(bad.clone()),
        _ => Event::Succeeded,
    });
    assert_eq!(result, Err(RichPresenceError::RecvInvalidPacket));
}

#[test]
fn invalid_utf8_reply_is_rejected() {
    let mut client = DiscordIpcClient::new("123");
    let first = client.connect();
    let bad = vec![b'"', 0xff, b'"'];
    let bad_header = pack(1, 3);
    let (_, result) = drive(&mut client, first, |action| match action {
        Action::LookUpBaseDir => Event::BaseDirValues(base_values("/run")),
        Action::Read(8) => Event::Received(bad_header.clone()),
        Action::Read(_) => Event::Received(bad.clone()),
        _ => Event::Succeeded,
    });
    assert_eq!(result, Err(RichPresenceError::RecvInvalidPacket));
}

#[test]
fn read_failing_twice_fails_with_read_error() {
    let mut client = DiscordIpcClient::new("123");
    let first = client.connect();
    let (_, result) = drive(&mut client, first, |action| match action {
        Action::LookUpBaseDir => Event::BaseDirValues(base_values("/run")),
        Action::Read(_) => Event::Failed,
        _ => Event::Succeeded,
    });
    assert_eq!(result, Err(RichPresenceError::ReadSocketFailed));
}

#[test]
fn close_sends_empty_object_then_flushes_and_shuts_down() {
    let mut client = connected_client();
    let first = client.close();
    let (actions, result) = drive(&mut client, first, friendly_peer());
    assert_eq!(result, Ok(()));
    assert!(matches!(&actions[0], Action::Write(h) if *h == pack(2, 2)));
    assert!(matches!(&actions[1], Action::Write(b) if b.as_slice() == b"{}"));
    assert!(matches!(&actions[2], Action::Flush));
    assert!(matches!(&actions[3], Action::Shutdown));
    assert_eq!(actions.len(), 4);
}

#[test]
fn close_reports_flush_failure() {
    let mut client = connected_client();
    let first = client.close();
    let (_, result) = drive(&mut client, first, |action| match action {
        Action::Flush => Event::Failed,
        _ => Event::Succeeded,
    });
    assert_eq!(result, Err(RichPresenceError::FlushSocketFailed));
}

#[test]
fn close_ignores_shutdown_failure() {
    let mut client = connected_client();
    let first = client.close();
    let (_, result) = drive(&mut client, first, |action| match action {
        Action::Shutdown => Event::Failed,
        _ => Event::Succeeded,
    });
    assert_eq!(result, Ok(()));
}

#[test]
fn client_id_is_kept() {
    let client = DiscordIpcClient::new("861702238472241162");
    assert_eq!(client.get_client_id(), "861702238472241162");
}

#[test]
fn error_messages_and_classes() {
    assert_eq!(RichPresenceError::TooManyButtons(3).message(), "Too many (3) buttons provided to activity");
    assert_eq!(RichPresenceError::CouldNotConnect.message(), "Could not connect to IPC socket");
    assert!(RichPresenceError::WriteSocketFailed.is_disconnect());
    assert!(RichPresenceError::CouldNotConnect.is_disconnect());
    assert!(!RichPresenceError::ReadSocketFailed.is_disconnect());
}

#[test]
fn decode_frame_gives_tag_and_text() {
    let bytes: Vec<u8> = vec![1, 0, 0, 0, 2, 0, 0, 0, b'{', b'}'];
    assert_eq!(decode_frame(&bytes[..8], &bytes[8..]), Ok((1, "{}".to_string())));
    let (h, b) = frame(3, r#"{"evt":"READY","data":{"v":1}}"#);
    assert_eq!(
        decode_frame(&h, &b),
        Ok((3, r#"{"evt":"READY","data":{"v":1}}"#.to_string()))
    );
}

#[test]
fn decode_frame_errors() {
    assert_eq!(decode_frame(&[1, 0, 0, 0, 2, 0, 0], b"{}"), Err(RichPresenceError::RecvInvalidPacket));
    assert_eq!(decode_frame(&pack(1, 3), b"{}"), Err(RichPresenceError::ReadSocketFailed));
    assert_eq!(decode_frame(&pack(1, 2), b"{x"), Err(RichPresenceError::RecvInvalidPacket));
    assert_eq!(decode_frame(&pack(1, 2), &[0xff, 0xfe]), Err(RichPresenceError::RecvInvalidPacket));
}

#[test]
fn recv_reads_header_then_announced_body() {
    let mut client = connected_client();
    let inbound: Vec<u8> = vec![1, 0, 0, 0, 2, 0, 0, 0, b'{', b'}'];
    let mut offset = 0;
    let first = client.recv();
    let (actions, result) = drive(&mut client, first, |action| match action {
        Action::Read(n) => {
            let chunk = inbound[offset..offset + n].to_vec();
            offset += n;
            Event::Received(chunk)
        }
        _ => Event::Failed,
    });
    assert_eq!(result, Ok(()));
    assert!(matches!(&actions[0], Action::Read(8)));
    assert!(matches!(&actions[1], Action::Read(2)));
    assert_eq!(actions.len(), 2);
    assert_eq!(offset, 10);
    assert_eq!(client.received_frame(), Some((1, "{}".to_string())));
}

#[test]
fn handshake_reply_is_kept() {
    let client = connected_client();
    assert_eq!(client.received_frame(), Some((1, "{}".to_string())));
}

#[test]
fn read_failing_once_reconnects_once() {
    let mut client = connected_client();
    let first = client.recv();
    let mut reads = 0;
    let (reply_header, reply) = frame(1, "{}");
    let (actions, result) = drive(&mut client, first, |action| match action {
        Action::LookUpBaseDir => Event::BaseDirValues(base_values("/run")),
        Action::Read(8) => {
            reads += 1;
            if reads == 1 {
                Event::Failed
            } else {
                Event::Received(reply_header.clone())
            }
        }
        Action::Read(_) => Event::Received(reply.clone()),
        _ => Event::Succeeded,
    });
    assert_eq!(result, Ok(()));
    assert_eq!(count_lookups(&actions), 1);
}

#[test]
fn header_write_failing_once_reconnects_once() {
    let mut client = connected_client();
    let first = client.close();
    let mut failed = false;
    let mut peer = friendly_peer();
    let (actions, result) = drive(&mut client, first, |action| {
        if let Action::Write(bytes) = action {
            if *bytes == pack(2, 2) && !failed {
                failed = true;
                return Event::Failed;
            }
        }
        peer(action)
    });
    assert_eq!(result, Ok(()));
    assert_eq!(count_lookups(&actions), 1);
}
