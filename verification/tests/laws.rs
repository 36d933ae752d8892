use std::collections::VecDeque;

use base64::engine::general_purpose::URL_SAFE_NO_PAD;
use base64::Engine;
use weechatrs::backend::BackendEvent;
use weechatrs::completion::{matching_mentions, replace_selection, selected_text};
use weechatrs::composer::{mention_payload_from, music_text, Playing};
use weechatrs::connection::{AppSettings, BackendType, ConnectionProfile};
use weechatrs::json::{Json, JsonMember, JsonNumber};
use weechatrs::markers::SavedReadMarker;
use weechatrs::mentions::Completed;
use weechatrs::models::{
    Buffer, BufferActivity, Line, MentionCandidate, WeeChatResponse,
};
use weechatrs::startup::TunnelOutcome;
use weechatrs::state::{
    Action, Clock, CommandCompletionRequest, RelayEntry, WeeChatApp, LOAD_MORE_LINES,
    MAX_STORED_LINES,
};
use weechatrs::time::Timestamp;
use weechatrs::uploads::{upload_announcement, upload_part, PreparedFileShare};

fn clock(ticks: u64) -> Clock {
    Clock {
        hm: "12:34".to_owned(),
        hms: "12:34:56".to_owned(),
        now: at(1_750_000_000),
        ticks,
    }
}

fn at(secs: i64) -> Timestamp {
    Timestamp { secs, nanos: 0 }
}

fn line(id: &str, secs: i64, prefix: &str, message: &str) -> Line {
    Line::new(
        id.to_owned(),
        at(secs),
        prefix.to_owned(),
        message.to_owned(),
        true,
        false,
    )
}

fn buffer(id: &str, kind: &str, server: &str, number: i32) -> Buffer {
    Buffer {
        id: id.to_owned(),
        number,
        name: id.to_owned(),
        full_name: format!("irc.{id}"),
        plugin: "irc".to_owned(),
        kind: kind.to_owned(),
        server: server.to_owned(),
        own_nick: "me".to_owned(),
        messages: VecDeque::new(),
        nicks: Vec::new(),
        mention_candidates: Vec::new(),
        matrix_member_profiles: Vec::new(),
        activity: BufferActivity::Idle,
        unread_count: 0,
        last_read_id: None,
        last_markread_ts: None,
        topic: String::new(),
        modes: String::new(),
        hidden: false,
        muted: false,
        has_nicklist: kind == "channel",
        matrix_room_id: None,
        matrix_predecessor_room_id: None,
        matrix_replacement_room_id: None,
        matrix_thread_root: None,
        matrix_upload_v1: false,
        matrix_avatar_mxc: None,
        visit_start_marker_id: None,
    }
}

fn profile(label: &str, backend_type: BackendType) -> ConnectionProfile {
    ConnectionProfile {
        label: label.to_owned(),
        backend_type,
        host: "relay.example.org".to_owned(),
        port: "9001".to_owned(),
        ..ConnectionProfile::default()
    }
}

/// An app with one connection `home` and the given buffers on it.
fn app_with(buffers: Vec<Buffer>) -> WeeChatApp {
    let mut app = WeeChatApp::new(&AppSettings::default());
    app.do_connect(
        &profile("home", BackendType::Soju),
        "secret",
        &TunnelOutcome::Unused,
        &clock(0),
    );
    app.handle_event("home", BackendEvent::Connected, &clock(1));
    app.handle_event("home", BackendEvent::BuffersLoaded(buffers), &clock(2));
    app.take_actions();
    app
}

fn sent(actions: &[Action]) -> Vec<(String, String)> {
    actions
        .iter()
        .filter_map(|action| match action {
            Action::SendMessage { raw_id, text, .. } => Some((raw_id.clone(), text.clone())),
            _ => None,
        })
        .collect()
}

fn member(key: &str, value: Json) -> JsonMember {
    JsonMember {
        key: key.to_owned(),
        value,
    }
}

fn text(value: &str) -> Json {
    Json::Text(value.to_owned())
}

fn number(value: i64) -> Json {
    Json::Number(JsonNumber {
        signed: Some(value),
        unsigned: u64::try_from(value).ok(),
        truncated: value,
    })
}

fn answer(request: &str, body: Vec<Json>) -> WeeChatResponse {
    WeeChatResponse {
        request_id: Some(request.to_owned()),
        event_name: None,
        code: Some(200),
        message: None,
        body_type: None,
        buffer_id: None,
        body: Some(Json::Array(body)),
    }
}

fn event(name: &str, buffer_id: i64, body: Vec<Json>) -> WeeChatResponse {
    WeeChatResponse {
        request_id: None,
        event_name: Some(name.to_owned()),
        code: None,
        message: None,
        body_type: None,
        buffer_id: Some(buffer_id),
        body: Some(Json::Array(body)),
    }
}

fn entries(dates: &[i64]) -> Vec<RelayEntry> {
    dates
        .iter()
        .map(|secs| RelayEntry {
            local: None,
            arrival: at(*secs),
            mentions: None,
            members: None,
        })
        .collect()
}

fn relay_line(id: i64, message: &str) -> Json {
    Json::Object(vec![
        member("id", number(id)),
        member("prefix", text("bob")),
        member("message", text(message)),
        member("displayed", Json::Bool(true)),
        member("highlight", Json::Bool(false)),
        member(
            "tags",
            Json::Array(vec![text("irc_privmsg"), text("notify_message")]),
        ),
    ])
}

/// An app whose connection `home` speaks the relay protocol.
fn relay_app(buffers: Vec<Buffer>) -> WeeChatApp {
    let mut app = app_with(buffers);
    app.connections[0].backend_type = BackendType::WeeChat;
    app
}

fn line_event(buffer: i64, id: i64, message: &str, date: i64) -> BackendEvent {
    BackendEvent::WeeChat(
        event("buffer_line_added", buffer, vec![relay_line(id, message)]),
        entries(&[date]),
    )
}

#[test]
fn lines_are_taken_in_once() {
    let mut app = relay_app(vec![
        buffer("1", "channel", "libera", 1),
        buffer("2", "channel", "libera", 2),
    ]);
    assert_eq!(app.selected_buffer_id.as_deref(), Some("home/1"));
    for _ in 0..2 {
        app.handle_event("home", line_event(2, 7, "hi", 100), &clock(3));
    }
    assert_eq!(app.buffers[1].messages.len(), 1);
    assert_eq!(app.buffers[1].unread_count, 1);
}

#[test]
fn lines_on_view_are_read_at_once() {
    let mut app = relay_app(vec![buffer("1", "channel", "libera", 1)]);
    app.handle_event("home", line_event(1, 7, "hi", 100), &clock(3));
    assert_eq!(app.buffers[0].unread_count, 0);
    assert_eq!(app.buffers[0].last_read_id.as_deref(), Some("7"));
    assert!(app.take_actions().is_empty());
    // An older line is put in its place and moves nothing.
    app.handle_event("home", line_event(1, 6, "late", 50), &clock(4));
    assert_eq!(app.buffers[0].messages[0].id, "6");
    assert_eq!(app.buffers[0].last_read_id.as_deref(), Some("7"));
    assert_eq!(
        app.read_markers.get("home/irc.1").map(|marker| marker.line_id.as_str()),
        Some("7")
    );
}

#[test]
fn muted_buffers_do_not_count() {
    let mut quiet = buffer("2", "channel", "libera", 2);
    quiet.muted = true;
    let mut app = relay_app(vec![buffer("1", "channel", "libera", 1), quiet]);
    let mut shout = event("buffer_line_added", 2, vec![relay_line(7, "me: hi")]);
    if let Some(Json::Array(items)) = &mut shout.body {
        if let Json::Object(members) = &mut items[0] {
            for member in members {
                if member.key == "highlight" {
                    member.value = Json::Bool(true);
                }
            }
        }
    }
    app.handle_event("home", BackendEvent::WeeChat(shout, entries(&[100])), &clock(3));
    assert_eq!(app.buffers[1].messages.len(), 1);
    assert_eq!(app.buffers[1].unread_count, 0);
    assert_eq!(app.buffers[1].activity, BufferActivity::Idle);
    assert!(app.take_actions().is_empty());
}

#[test]
fn read_buffers_keep_back_restored_counts() {
    let mut app = relay_app(vec![
        buffer("1", "channel", "libera", 1),
        buffer("2", "channel", "libera", 2),
    ]);
    app.cleared_buffer_names.insert("home/irc.2".to_owned());
    let hot = |count: i64| {
        Json::Object(vec![
            member("buffer_id", number(2)),
            member("priority", number(1)),
            member(
                "count",
                Json::Array(vec![number(0), number(count), number(0), number(0)]),
            ),
        ])
    };
    app.handle_event(
        "home",
        BackendEvent::WeeChat(answer("_hotlist", vec![hot(4)]), entries(&[0])),
        &clock(3),
    );
    assert_eq!(app.buffers[1].unread_count, 0);
    // A new line ends that.
    app.handle_event("home", line_event(2, 7, "hi", 100), &clock(4));
    assert!(!app.cleared_buffer_names.contains("home/irc.2"));
    app.handle_event(
        "home",
        BackendEvent::WeeChat(answer("_hotlist", vec![hot(5)]), entries(&[0])),
        &clock(5),
    );
    assert_eq!(app.buffers[1].unread_count, 5);
}

#[test]
fn remembered_markers_never_move_back() {
    let mut room = buffer("a", "channel", "libera", 1);
    room.messages.push_back(line("5", 100, "bob", "x"));
    let mut app = app_with(vec![room]);
    let newer = SavedReadMarker {
        line_id: "9".to_owned(),
        timestamp_nanos: 900_000_000_000,
    };
    app.read_markers.insert("home/irc.a".to_owned(), newer.clone());
    app.remember_buffer_read_marker("home/a");
    assert_eq!(app.read_markers.get("home/irc.a"), Some(&newer));
}

#[test]
fn one_file_is_shared_at_a_time() {
    let mut app = app_with(vec![buffer("a", "channel", "libera", 1)]);
    assert_eq!(app.start_file_path("home/a", &clock(3)), Some(false));
    assert_eq!(app.start_file_picker("home/a", &clock(4)), None);
    assert_eq!(
        app.file_share_error.as_deref(),
        Some("Another attachment is still being prepared or uploaded")
    );
    assert_eq!(app.file_share_owners(), (false, true));
    // The user chose no file after all.
    app.file_share_arrived(Err(String::new()), "unused".to_owned(), &clock(5));
    assert!(!app.file_share_uploading);
    assert_eq!(app.start_file_picker("home/a", &clock(6)), Some(false));
    assert_eq!(app.drop_target(false).as_deref(), Some("home/a"));
}

#[test]
fn few_mentions_are_offered() {
    let candidates: Vec<MentionCandidate> = (0..50)
        .map(|n| MentionCandidate {
            display_name: format!("ada{n}"),
            user_id: format!("@ada{n}:example.org"),
        })
        .collect();
    assert_eq!(matching_mentions(&candidates, "ada").len(), 8);
    assert!(matching_mentions(&candidates, "zed").is_empty());
}

fn completion_answer(sequence: u64, words: &[&str]) -> WeeChatResponse {
    let mut response = answer(&format!("_completion:{sequence}"), Vec::new());
    response.body_type = Some("completion".to_owned());
    response.body = Some(Json::Object(vec![
        member("context", text("command")),
        member("base_word", text("qu")),
        member("position_replace", number(1)),
        member("add_space", Json::Bool(true)),
        member(
            "list",
            Json::Array(words.iter().map(|word| text(word)).collect()),
        ),
    ]));
    response
}

fn asked(app: &mut WeeChatApp) -> CommandCompletionRequest {
    app.input_text = "/qu".to_owned();
    let ask = app.request_command_completion(3).expect("a question");
    assert_eq!(ask.conn, "home");
    assert_eq!(ask.raw_id, "1");
    ask.request
}

#[test]
fn completions_come_from_the_relay() {
    let mut app = relay_app(vec![buffer("1", "channel", "libera", 1)]);
    let request = asked(&mut app);
    let sequence = request.sequence;
    app.note_completion_request(request, true);
    let reply = completion_answer(sequence, &["query", "quit"]);
    app.handle_event("home", BackendEvent::WeeChat(reply, entries(&[0])), &clock(3));
    app.move_command_completion_selection(1);
    assert_eq!(app.command_completion.as_ref().map(|state| state.index), Some(1));
    app.move_command_completion_selection(1);
    let accepted = app.accept_command_completion(None).expect("it fits");
    assert_eq!(accepted.cursor, 7);
    assert_eq!(app.input_text, "/query ");
    // Completing goes on behind the command.
    assert!(app.command_completion.is_none());
    let ask = accepted.ask.expect("a question");
    assert_eq!(ask.request.input, "/query ");
    assert_eq!(ask.request.cursor_byte_idx, 7);
    assert_eq!(ask.request.sequence, sequence + 1);
    assert_eq!(app.command_completion_request_seq, sequence + 1);
}

#[test]
fn stale_completions_are_dropped() {
    let mut app = relay_app(vec![buffer("1", "channel", "libera", 1)]);
    let request = asked(&mut app);
    let sequence = request.sequence;
    app.note_completion_request(request, true);
    app.input_text = "/quo".to_owned();
    let reply = completion_answer(sequence, &["query"]);
    app.handle_event("home", BackendEvent::WeeChat(reply, entries(&[0])), &clock(3));
    assert!(app.command_completion.is_none());
    // Nothing to offer is no offer.
    let mut app = relay_app(vec![buffer("1", "channel", "libera", 1)]);
    let request = asked(&mut app);
    let sequence = request.sequence;
    app.note_completion_request(request, true);
    let reply = completion_answer(sequence, &[]);
    app.handle_event("home", BackendEvent::WeeChat(reply, entries(&[0])), &clock(3));
    assert!(app.command_completion.is_none());
}

#[test]
fn mentions_are_sent_as_json_in_base64() {
    let mut room = buffer("room", "channel", "matrix", 1);
    room.plugin = "matrix".to_owned();
    let mut app = app_with(vec![room]);
    app.mention_person(&MentionCandidate {
        display_name: "Ada \"A\"".to_owned(),
        user_id: "@ada:example.org".to_owned(),
    });
    app.send_current_message();
    let actions = app.take_actions();
    let Action::SendMessage { text, .. } = &actions[0] else {
        panic!("nothing was sent");
    };
    let encoded = text.strip_prefix("/matrix-send ").expect("a message with mentions");
    let payload = URL_SAFE_NO_PAD.decode(encoded).expect("base64");
    assert_eq!(
        String::from_utf8(payload).unwrap(),
        "{\"body\":\"@Ada \\\"A\\\" \",\"user_ids\":[\"@ada:example.org\"]}"
    );
}

#[test]
fn upload_commands_are_put_together_from_their_parts() {
    assert_eq!(
        upload_announcement("id1", "bmFtZQ", "text/plain", 12, "abc"),
        "/matrix-upload begin id1 bmFtZQ text/plain 12 abc"
    );
    assert_eq!(upload_part("id1", 7, "AQID"), "/matrix-upload chunk id1 7 AQID");
    assert_eq!(
        mention_payload_from("\"hi\"", &vec!["\"@a:b\"".to_owned(), "\"@c:d\"".to_owned()]),
        "{\"body\":\"hi\",\"user_ids\":[\"@a:b\",\"@c:d\"]}"
    );
    assert_eq!(
        mention_payload_from("\"\"", &Vec::new()),
        "{\"body\":\"\",\"user_ids\":[]}"
    );
}

#[test]
fn attachments_are_announced_with_their_digest() {
    let mut room = buffer("room", "channel", "matrix", 1);
    room.plugin = "matrix".to_owned();
    room.matrix_upload_v1 = true;
    let mut app = app_with(vec![room]);
    app.file_share_arrived(
        Ok(PreparedFileShare::MatrixAttachment {
            buffer_id: "home/room".to_owned(),
            filename: "a.bin".to_owned(),
            mime: "application/octet-stream".to_owned(),
            bytes: vec![1, 2, 3],
        }),
        "id1".to_owned(),
        &clock(3),
    );
    assert_eq!(
        sent(&app.take_actions())[0].1,
        "/matrix-upload begin id1 YS5iaW4 application/octet-stream 3 \
         039058c6f2c0cb492c533b0a4d14ef77cc0f78abccced5287d84a1a2011cfb81"
    );
}

#[test]
fn older_lines_are_asked_for_by_time_or_by_count() {
    let mut room = buffer("1", "channel", "libera", 1);
    room.messages.push_back(line("5", 100, "bob", "x"));
    let mut app = app_with(vec![room]);
    app.request_older_history("home/1", "home/1");
    assert!(matches!(
        &app.take_actions()[0],
        Action::FetchLinesBefore { raw_id, timestamp, .. }
            if raw_id == "1" && timestamp == "1970-01-01T00:01:40.000Z"
    ));
    let mut room = buffer("1", "channel", "libera", 1);
    room.messages.push_back(line("5", 100, "bob", "x"));
    let mut app = relay_app(vec![room]);
    app.request_older_history("home/1", "home/1");
    assert!(matches!(
        &app.take_actions()[0],
        Action::FetchLines { count, .. } if *count == 300 + LOAD_MORE_LINES
    ));
    assert!(MAX_STORED_LINES > 300 + LOAD_MORE_LINES);
}

#[test]
fn a_finished_matrix_page_reveals_all_retained_lines() {
    let mut room = buffer("1", "channel", "matrix", 1);
    room.plugin = "matrix".to_owned();
    room.messages.push_back(line("5", 100, "bob", "x"));
    let mut app = relay_app(vec![room]);
    let page = |message: &str| {
        let mut response = event("buffer_line_added", 1, vec![relay_line(9, message)]);
        if let Some(Json::Array(items)) = &mut response.body {
            if let Json::Object(members) = &mut items[0] {
                members.retain(|member| member.key != "tags");
                members.push(member(
                    "tags",
                    Json::Array(vec![text("matrix_history_page")]),
                ));
            }
        }
        BackendEvent::WeeChat(response, entries(&[100]))
    };
    app.handle_event(
        "home",
        page("matrix_history_page added=20 exhausted=1"),
        &clock(3),
    );
    assert!(matches!(
        &app.take_actions()[0],
        Action::FetchLines { count, .. } if *count == MAX_STORED_LINES
    ));
    assert!(app.history_exhausted_buffer_ids.contains("home/1"));
    assert_eq!(app.buffers[0].messages.len(), 1);
}

#[test]
fn cleared_buffers_are_empty() {
    let mut room = buffer("1", "channel", "libera", 1);
    room.messages = VecDeque::from([line("5", 100, "bob", "x")]);
    let mut app = relay_app(vec![room]);
    app.handle_event(
        "home",
        BackendEvent::WeeChat(event("buffer_cleared", 1, Vec::new()), Vec::new()),
        &clock(3),
    );
    assert!(app.buffers[0].messages.is_empty());
    assert_eq!(app.buffers[0].last_read_id, None);
}

#[test]
fn control_characters_are_escaped_in_json() {
    let mut room = buffer("room", "channel", "matrix", 1);
    room.plugin = "matrix".to_owned();
    let mut app = app_with(vec![room]);
    app.mention_person(&MentionCandidate {
        display_name: "Ada\u{1}\u{8}\u{1f}\u{7f}\\é/".to_owned(),
        user_id: "@ada:example.org".to_owned(),
    });
    app.send_current_message();
    let actions = app.take_actions();
    let Action::SendMessage { text, .. } = &actions[0] else {
        panic!("nothing was sent");
    };
    let encoded = text.strip_prefix("/matrix-send ").expect("a message with mentions");
    let payload = URL_SAFE_NO_PAD.decode(encoded).expect("base64");
    assert_eq!(
        String::from_utf8(payload).unwrap(),
        "{\"body\":\"@Ada\\u0001\\b\\u001f\u{7f}\\\\é/ \",\"user_ids\":[\"@ada:example.org\"]}"
    );
}

#[test]
fn silence_is_not_announced() {
    let playing = || Playing {
        track: "Song".to_owned(),
        source: "Radio".to_owned(),
        url: "https://example.org/".to_owned(),
    };
    assert_eq!(
        music_text(None, Some(playing())).as_deref(),
        Some("Song @ Radio 🎵 https://example.org/")
    );
    assert_eq!(music_text(Some("humming"), Some(playing())).as_deref(), Some("humming 🎵"));
    assert_eq!(music_text(None, None), None);
}

#[test]
fn the_completion_key_accepts_and_asks_on() {
    let mut app = relay_app(vec![buffer("1", "channel", "libera", 1)]);
    let request = asked(&mut app);
    let sequence = request.sequence;
    app.note_completion_request(request, true);
    let reply = completion_answer(sequence, &["query"]);
    app.handle_event("home", BackendEvent::WeeChat(reply, entries(&[0])), &clock(3));
    let Completed::Command(accepted) = app.perform_completion(3, Vec::new()) else {
        panic!("nothing was accepted");
    };
    assert_eq!(app.input_text, "/query ");
    assert_eq!(accepted.cursor, 7);
    assert_eq!(accepted.ask.map(|ask| ask.request.sequence), Some(sequence + 1));
}

#[test]
fn what_replaced_a_selection_is_selected() {
    let mut text = "aб😺中z".to_owned();
    let before = text.clone();
    let selected = selected_text(&text, 1, 4);
    let cursor = replace_selection(&mut text, 1, 4, "🌍!");
    assert_eq!(selected_text(&text, 1, cursor), "🌍!");
    replace_selection(&mut text, 1, cursor, &selected);
    assert_eq!(text, before);
    replace_selection(&mut text, 1, 4, &selected);
    assert_eq!(text, before);
}

#[test]
fn the_index_is_as_long_as_the_list() {
    let mut app = relay_app(vec![
        buffer("1", "channel", "libera", 1),
        buffer("2", "channel", "libera", 2),
    ]);
    app.handle_event(
        "home",
        BackendEvent::BufferOpened(buffer("2", "channel", "libera", 2)),
        &clock(3),
    );
    app.handle_event(
        "home",
        BackendEvent::BufferOpened(buffer("3", "channel", "libera", 3)),
        &clock(3),
    );
    let ids: Vec<String> = app.buffers.iter().map(|b| b.id.clone()).collect();
    assert_eq!(ids, vec!["home/1", "home/2", "home/3"]);
    for (place, id) in ids.iter().enumerate() {
        assert_eq!(app.buffer_idx_of(id), Some(place));
    }
    app.handle_event("home", BackendEvent::Disconnected, &clock(4));
    assert!(app.buffers.is_empty());
    assert_eq!(app.selected_buffer_id, None);
}

#[test]
fn new_lines_never_make_a_buffer_less_urgent() {
    let mut app = relay_app(vec![
        buffer("1", "channel", "libera", 1),
        buffer("2", "channel", "libera", 2),
    ]);
    let mut counts = Vec::new();
    for (id, date) in [(5, 100), (6, 50), (5, 100), (7, 200)] {
        app.handle_event("home", line_event(2, id, "hi", date), &clock(3));
        counts.push(app.buffers[1].unread_count);
    }
    assert_eq!(counts, vec![1, 2, 2, 3]);
    let ids: Vec<&str> = app.buffers[1].messages.iter().map(|line| line.id.as_str()).collect();
    assert_eq!(ids, vec!["6", "5", "7"]);
}
