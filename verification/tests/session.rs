use std::collections::VecDeque;

use weechatrs::backend::BackendEvent;
use weechatrs::connection::{AppSettings, BackendType, ConnectionProfile};
use weechatrs::json::{Json, JsonMember, JsonNumber};
use weechatrs::markers::SavedReadMarker;
use weechatrs::mentions::Completed;
use weechatrs::models::{
    Buffer, BufferActivity, Line, MatrixMedia, MentionCandidate, Nick, WeeChatResponse,
};
use weechatrs::panels::{
    completion_label, completion_title, composer_hint, log_tone_of, LogTone, ScrollStep,
    PREFIX_COL_WIDTHS_MAX,
};
use weechatrs::sidebar::{buffer_menu, MenuCommand, RightPanelKind, RowTone};
use weechatrs::startup::{relay_port_of, tunnel_request, TunnelOutcome};
use weechatrs::state::{
    Action, Clock, RelayEntry, ReplyTarget, WeeChatApp, INITIAL_LINES, MAX_LOG_ENTRIES,
    MAX_STORED_LINES,
};
use weechatrs::time::Timestamp;
use weechatrs::uploads::PreparedFileShare;

fn clock(ticks: u64) -> Clock {
    Clock {
        hm: "12:34".to_owned(),
        hms: "12:34:56".to_owned(),
        now: at(1_750_000_000),
        ticks,
    }
}

fn at(secs: i64) -> Timestamp {
    Timestamp { secs, nanos: 0 }
}

fn line(id: &str, secs: i64, prefix: &str, message: &str) -> Line {
    Line::new(
        id.to_owned(),
        at(secs),
        prefix.to_owned(),
        message.to_owned(),
        true,
        false,
    )
}

fn highlight(id: &str, secs: i64, message: &str) -> Line {
    Line::new(
        id.to_owned(),
        at(secs),
        "bob".to_owned(),
        message.to_owned(),
        true,
        true,
    )
}

fn buffer(id: &str, kind: &str, server: &str, number: i32) -> Buffer {
    Buffer {
        id: id.to_owned(),
        number,
        name: id.to_owned(),
        full_name: format!("irc.{id}"),
        plugin: "irc".to_owned(),
        kind: kind.to_owned(),
        server: server.to_owned(),
        own_nick: "me".to_owned(),
        messages: VecDeque::new(),
        nicks: Vec::new(),
        mention_candidates: Vec::new(),
        matrix_member_profiles: Vec::new(),
        activity: BufferActivity::Idle,
        unread_count: 0,
        last_read_id: None,
        last_markread_ts: None,
        topic: String::new(),
        modes: String::new(),
        hidden: false,
        muted: false,
        has_nicklist: kind == "channel",
        matrix_room_id: None,
        matrix_predecessor_room_id: None,
        matrix_replacement_room_id: None,
        matrix_thread_root: None,
        matrix_upload_v1: false,
        matrix_avatar_mxc: None,
        visit_start_marker_id: None,
    }
}

fn profile(label: &str, backend_type: BackendType) -> ConnectionProfile {
    ConnectionProfile {
        label: label.to_owned(),
        backend_type,
        host: "relay.example.org".to_owned(),
        port: "9001".to_owned(),
        ..ConnectionProfile::default()
    }
}

/// An app with one connection `home` and the given buffers on it.
fn app_with(buffers: Vec<Buffer>) -> WeeChatApp {
    let mut app = WeeChatApp::new(&AppSettings::default());
    app.do_connect(
        &profile("home", BackendType::Soju),
        "secret",
        &TunnelOutcome::Unused,
        &clock(0),
    );
    app.handle_event("home", BackendEvent::Connected, &clock(1));
    app.handle_event("home", BackendEvent::BuffersLoaded(buffers), &clock(2));
    app.take_actions();
    app
}

fn sent(actions: &[Action]) -> Vec<(String, String)> {
    actions
        .iter()
        .filter_map(|action| match action {
            Action::SendMessage { raw_id, text, .. } => Some((raw_id.clone(), text.clone())),
            _ => None,
        })
        .collect()
}

fn member(key: &str, value: Json) -> JsonMember {
    JsonMember {
        key: key.to_owned(),
        value,
    }
}

fn text(value: &str) -> Json {
    Json::Text(value.to_owned())
}

fn number(value: i64) -> Json {
    Json::Number(JsonNumber {
        signed: Some(value),
        unsigned: u64::try_from(value).ok(),
        truncated: value,
    })
}

fn answer(request: &str, body: Vec<Json>) -> WeeChatResponse {
    WeeChatResponse {
        request_id: Some(request.to_owned()),
        event_name: None,
        code: Some(200),
        message: None,
        body_type: None,
        buffer_id: None,
        body: Some(Json::Array(body)),
    }
}

fn event(name: &str, buffer_id: i64, body: Vec<Json>) -> WeeChatResponse {
    WeeChatResponse {
        request_id: None,
        event_name: Some(name.to_owned()),
        code: None,
        message: None,
        body_type: None,
        buffer_id: Some(buffer_id),
        body: Some(Json::Array(body)),
    }
}

fn entries(dates: &[i64]) -> Vec<RelayEntry> {
    dates
        .iter()
        .map(|secs| RelayEntry {
            local: None,
            arrival: at(*secs),
            mentions: None,
            members: None,
        })
        .collect()
}

fn listed(id: i64, name: &str, kind: &str, server: &str) -> Json {
    Json::Object(vec![
        member("id", number(id)),
        member("number", number(id)),
        member("name", text(&format!("irc.{server}.{name}"))),
        member("short_name", text(name)),
        member(
            "local_variables",
            Json::Object(vec![
                member("plugin", text("irc")),
                member("type", text(kind)),
                member("server", text(server)),
                member("nick", text("me")),
            ]),
        ),
    ])
}

fn relay_line(id: i64, message: &str) -> Json {
    Json::Object(vec![
        member("id", number(id)),
        member("prefix", text("bob")),
        member("message", text(message)),
        member("displayed", Json::Bool(true)),
        member("highlight", Json::Bool(false)),
        member(
            "tags",
            Json::Array(vec![text("irc_privmsg"), text("notify_message")]),
        ),
    ])
}

#[test]
fn a_connection_is_opened_once() {
    let mut app = WeeChatApp::new(&AppSettings::default());
    let config = app.do_connect(
        &profile("home", BackendType::WeeChat),
        "secret",
        &TunnelOutcome::Unused,
        &clock(0),
    );
    assert_eq!(config.host, "relay.example.org");
    assert_eq!(config.port, 9001);
    assert_eq!(config.password, "secret");
    assert_eq!(config.nick, "user");
    assert_eq!(app.session_passwords.get("home").map(String::as_str), Some("secret"));
    assert_eq!(
        app.connections[0].connection_log,
        [
            "[12:34:56]  Connecting to wss://relay.example.org:9001/api",
            "[12:34:56]  SSL/TLS: enabled",
        ]
    );
    assert!(app.connection_log_unread);
    app.do_connect(
        &profile("home", BackendType::WeeChat),
        "",
        &TunnelOutcome::Unused,
        &clock(0),
    );
    assert_eq!(app.connections.len(), 1);
    assert_eq!(app.selected_conn_log.as_deref(), Some("home"));
    assert_eq!(app.session_passwords.get("home").map(String::as_str), Some("secret"));
}

#[test]
fn tunnels_change_where_the_client_connects() {
    let mut gated = profile("gated", BackendType::Soju);
    gated.ssh_enabled = true;
    gated.ssh_host = "gate".to_owned();
    gated.ssh_save_password = true;
    gated.port = "none".to_owned();
    gated.use_ssl = false;
    assert_eq!(relay_port_of("none"), 9001);
    assert_eq!(relay_port_of("65536"), 9001);
    assert_eq!(relay_port_of("65535"), 65535);
    let request = tunnel_request(&gated, None, Some("kept".to_owned())).expect("a tunnel");
    assert_eq!(request.password.as_deref(), Some("kept"));
    assert_eq!(request.port, 9001);
    assert!(tunnel_request(&profile("x", BackendType::Soju), None, None).is_none());

    let mut app = WeeChatApp::new(&AppSettings::default());
    let config = app.do_connect(&gated, "pw", &TunnelOutcome::Started(4022), &clock(0));
    assert_eq!(config.host, "127.0.0.1");
    assert_eq!(config.port, 4022);
    assert_eq!(config.tunnel_port, Some(4022));
    assert_eq!(
        app.connections[0].connection_log,
        [
            "[12:34:56]  SSH tunnel started: 127.0.0.1:4022 → relay.example.org:9001",
            "[12:34:56]  Connecting to irc://relay.example.org:9001",
            "[12:34:56]  SSL/TLS: disabled",
        ]
    );
    let config = app.do_connect(
        &gated,
        "pw",
        &TunnelOutcome::Failed("refused".to_owned()),
        &clock(0),
    );
    assert_eq!(config.host, "relay.example.org");
    assert_eq!(
        app.connections[0].connection_log[0],
        "[12:34:56]  SSH tunnel failed to start: refused — connecting directly"
    );
}

#[test]
fn settings_come_back_after_a_restart() {
    let mut settings = AppSettings::default();
    settings.buffer_order = vec!["home/a".to_owned()];
    settings.muted_buffer_names.insert("quiet".to_owned());
    settings.cleared_buffer_ids.insert("stale".to_owned());
    settings.connections = vec![profile("home", BackendType::WeeChat)];
    settings.connections[0].auto_connect = true;
    settings.show_timestamps = false;
    let app = WeeChatApp::new(&settings);
    assert_eq!(app.auto_connect_profiles().len(), 1);
    assert_eq!(app.cleared_buffer_ids.len(), 0);
    let kept = app.save(&settings);
    assert_eq!(kept.buffer_order, vec!["home/a"]);
    assert!(kept.muted_buffer_names.contains("quiet"));
    assert_eq!(kept.cleared_buffer_ids.len(), 0);
    assert_eq!(kept.connections, settings.connections);
    assert!(!kept.show_timestamps);
    assert_eq!(kept.host, "");
}

#[test]
fn an_old_single_connection_becomes_a_profile() {
    let mut settings = AppSettings::default();
    settings.port = "9000".to_owned();
    let app = WeeChatApp::new(&settings);
    assert_eq!(app.profiles.len(), 1);
    assert_eq!(app.auto_connect_profiles().len(), 1);
}

#[test]
fn coming_up_asks_for_fresh_buffers() {
    let mut app = app_with(vec![buffer("a", "channel", "libera", 1)]);
    app.handle_event("home", BackendEvent::Connected, &clock(3));
    assert!(app.buffers.is_empty());
    let actions = app.take_actions();
    assert!(matches!(&actions[0], Action::FetchBufferList { conn } if conn == "home"));
    assert!(matches!(&actions[1], Action::SyncSubscriptions { conn } if conn == "home"));
    assert_eq!(app.connections[0].status, "Connected");
}

#[test]
fn going_down_drops_only_its_own_buffers() {
    let mut app = app_with(vec![buffer("a", "channel", "libera", 1)]);
    app.do_connect(
        &profile("work", BackendType::Soju),
        "",
        &TunnelOutcome::Unused,
        &clock(3),
    );
    app.handle_event(
        "work",
        BackendEvent::BufferOpened(buffer("b", "channel", "oftc", 1)),
        &clock(4),
    );
    app.handle_event("home", BackendEvent::Disconnected, &clock(5));
    let ids: Vec<&str> = app.buffers.iter().map(|buffer| buffer.id.as_str()).collect();
    assert_eq!(ids, vec!["work/b"]);
    assert_eq!(app.selected_buffer_id.as_deref(), Some("work/b"));
}

#[test]
fn highlights_notify_once_within_the_cooldown() {
    let mut app = app_with(vec![
        buffer("a", "channel", "libera", 1),
        buffer("#b", "channel", "libera", 2),
    ]);
    assert_eq!(app.selected_buffer_id.as_deref(), Some("home/a"));
    let arrive = |app: &mut WeeChatApp, id: &str, ticks: u64| {
        app.handle_event(
            "home",
            BackendEvent::LineAdded {
                buffer_id: "#b".to_owned(),
                line: highlight(id, 100, "me: \x1b[32mhello\x1b[0m"),
            },
            &clock(ticks),
        );
    };
    arrive(&mut app, "1", 10_000_000_000);
    arrive(&mut app, "2", 11_000_000_000);
    arrive(&mut app, "3", 14_000_000_000);
    let actions = app.take_actions();
    assert_eq!(actions.len(), 2);
    match &actions[0] {
        Action::Notify { title, body } => {
            assert_eq!(title, "#b — bob");
            assert_eq!(body, "me: hello");
        }
        other => panic!("unexpected {other:?}"),
    }
    assert_eq!(app.buffers[1].unread_count, 3);
    assert_eq!(app.buffers[1].activity, BufferActivity::Highlight);
    app.prune_notifications(u64::MAX);
    assert_eq!(app.last_notif_at.len(), 1);
}

#[test]
fn buffers_never_outgrow_their_limit() {
    let mut app = app_with(vec![buffer("a", "channel", "libera", 1)]);
    for i in 0..MAX_STORED_LINES + 3 {
        app.handle_event(
            "home",
            BackendEvent::LineAdded {
                buffer_id: "a".to_owned(),
                line: line(&i.to_string(), i as i64, "bob", "x"),
            },
            &clock(3),
        );
    }
    assert_eq!(app.buffers[0].messages.len(), MAX_STORED_LINES);
    assert_eq!(app.buffers[0].messages[0].id, "3");
}

#[test]
fn logs_never_outgrow_their_limit() {
    let mut app = app_with(Vec::new());
    for i in 0..MAX_LOG_ENTRIES + 10 {
        app.handle_event("home", BackendEvent::ConnLog(i.to_string()), &clock(3));
    }
    assert_eq!(app.connections[0].connection_log.len(), MAX_LOG_ENTRIES);
    assert_eq!(
        app.connections[0].connection_log.back().map(String::as_str),
        Some("[12:34:56]  509")
    );
}

#[test]
fn selecting_a_buffer_reads_it() {
    let mut app = app_with(vec![
        buffer("a", "channel", "libera", 1),
        buffer("b", "channel", "libera", 2),
    ]);
    app.handle_event(
        "home",
        BackendEvent::LineAdded {
            buffer_id: "b".to_owned(),
            line: line("7", 100, "bob", "hi"),
        },
        &clock(3),
    );
    assert_eq!(app.buffers[1].unread_count, 1);
    app.take_actions();
    app.select_buffer("home/b".to_owned(), &clock(4));
    assert_eq!(app.buffers[1].unread_count, 0);
    assert_eq!(app.buffers[1].activity, BufferActivity::Idle);
    assert_eq!(app.last_chat_buffer_name.as_deref(), Some("home/irc.b"));
    assert!(app.cleared_buffer_names.contains("home/irc.b"));
    assert_eq!(
        app.read_markers.get("home/irc.b"),
        Some(&SavedReadMarker {
            line_id: "7".to_owned(),
            timestamp_nanos: 100_000_000_000,
        })
    );
    let actions = app.take_actions();
    assert!(matches!(&actions[0], Action::MarkRead { raw_id, .. } if raw_id == "a"));
    assert!(matches!(&actions[1], Action::RefreshBuffer { raw_id, .. } if raw_id == "b"));
    assert!(matches!(
        &actions[2],
        Action::FetchLines { raw_id, count, .. } if raw_id == "b" && *count == INITIAL_LINES
    ));
    assert!(matches!(&actions[3], Action::FetchNicks { .. }));
    assert!(matches!(&actions[4], Action::MarkRead { raw_id, .. } if raw_id == "b"));
}

#[test]
fn threads_open_beside_their_room() {
    let mut room = buffer("room", "channel", "matrix", 1);
    room.plugin = "matrix".to_owned();
    room.matrix_room_id = Some("!room:example.org".to_owned());
    let mut thread = buffer("thread", "channel", "matrix", 2);
    thread.plugin = "matrix".to_owned();
    thread.matrix_room_id = Some("!room:example.org".to_owned());
    thread.matrix_thread_root = Some("$root:example.org".to_owned());
    let mut app = app_with(vec![room, thread, buffer("other", "channel", "libera", 3)]);
    app.select_buffer("home/thread".to_owned(), &clock(3));
    assert_eq!(app.selected_buffer_id.as_deref(), Some("home/room"));
    app.open_thread("home/thread".to_owned());
    assert_eq!(app.open_thread_buffer_id.as_deref(), Some("home/thread"));
    assert_eq!(app.right_panel_kind(true, true), RightPanelKind::Thread);
    app.refresh_open_thread();
    assert!(app.open_thread_snapshot.is_some());
    app.thread_input_text = "in the thread".to_owned();
    app.take_actions();
    app.send_thread_message();
    assert_eq!(
        sent(&app.take_actions()),
        vec![("thread".to_owned(), "in the thread".to_owned())]
    );
    app.select_buffer("home/other".to_owned(), &clock(4));
    app.refresh_open_thread();
    assert!(app.open_thread_buffer_id.is_none());
    assert_eq!(app.right_panel_kind(true, true), RightPanelKind::Nicklist);
    assert_eq!(app.right_panel_kind(false, true), RightPanelKind::Empty);
}

#[test]
fn messages_are_sent_and_remembered() {
    let mut app = app_with(vec![buffer("a", "channel", "libera", 1)]);
    for message in ["first", "second"] {
        app.input_text = message.to_owned();
        app.send_current_message();
        assert_eq!(app.input_text, "");
    }
    assert_eq!(
        sent(&app.take_actions()),
        vec![
            ("a".to_owned(), "first".to_owned()),
            ("a".to_owned(), "second".to_owned()),
        ]
    );
    assert_eq!(app.cycle_history(1), Some(0));
    assert_eq!(app.cycle_history(-1), Some(6));
    assert_eq!(app.input_text, "second");
    app.cycle_history(-1);
    app.cycle_history(-1);
    assert_eq!(app.input_text, "first");
    app.cycle_history(1);
    app.cycle_history(1);
    assert_eq!(app.input_text, "");
}

#[test]
fn answers_name_the_chosen_event() {
    let mut room = buffer("room", "channel", "matrix", 1);
    room.plugin = "matrix".to_owned();
    let mut app = app_with(vec![room]);
    app.begin_reply(ReplyTarget {
        buffer_id: "home/room".to_owned(),
        matrix_event_id: "$event:example.org".to_owned(),
        sender: "ada".to_owned(),
        message: "question".to_owned(),
    });
    assert!(app.shown_reply().is_some());
    app.input_text = "answer".to_owned();
    app.send_current_message();
    assert_eq!(
        sent(&app.take_actions()),
        vec![(
            "room".to_owned(),
            "/reply $event:example.org answer".to_owned()
        )]
    );
    assert!(app.shown_reply().is_none());
}

#[test]
fn own_commands_stay_here() {
    let mut app = app_with(vec![buffer("a", "channel", "libera", 1)]);
    app.input_text = "/sysinfo".to_owned();
    app.send_current_message();
    let actions = app.take_actions();
    assert!(matches!(
        &actions[0],
        Action::GatherSystemInfo { buffer_id } if buffer_id == "home/a"
    ));
    app.input_text = "/join #rust".to_owned();
    app.send_current_message();
    assert_eq!(app.pending_buffer_switch.as_deref(), Some("#rust"));
    app.handle_event(
        "home",
        BackendEvent::BufferOpened(buffer("#rust", "channel", "libera", 2)),
        &clock(4),
    );
    assert_eq!(app.selected_buffer_id.as_deref(), Some("home/#rust"));
    assert_eq!(app.pending_buffer_switch, None);
}

#[test]
fn words_complete_to_nicks_in_turn() {
    let mut room = buffer("a", "channel", "libera", 1);
    for name in ["adam", "Ada", "bob"] {
        room.nicks.push(Nick {
            name: name.to_owned(),
            prefix: String::new(),
            color_ansi: String::new(),
            away: false,
        });
    }
    let mut app = app_with(vec![room]);
    app.input_text = "ad".to_owned();
    assert!(matches!(
        app.perform_completion(2, Vec::new()),
        Completed::Cursor(6)
    ));
    assert_eq!(app.input_text, "adam: ");
    app.perform_completion(6, Vec::new());
    assert_eq!(app.input_text, "Ada: ");
    app.perform_completion(5, Vec::new());
    assert_eq!(app.input_text, "adam: ");
    app.completion = None;
    app.input_text = "so :sm".to_owned();
    app.perform_completion(6, vec!["😀".to_owned()]);
    assert_eq!(app.input_text, "so 😀 ");
    app.completion = None;
    app.input_text = "xyz".to_owned();
    assert!(matches!(
        app.perform_completion(3, Vec::new()),
        Completed::Nothing
    ));
}

#[test]
fn accepted_mentions_are_sent_with_their_user_ids() {
    let mut room = buffer("room", "channel", "matrix", 1);
    room.plugin = "matrix".to_owned();
    room.mention_candidates = vec![
        MentionCandidate {
            display_name: "Ada Lovelace".to_owned(),
            user_id: "@ada:example.org".to_owned(),
        },
        MentionCandidate {
            display_name: "Adam".to_owned(),
            user_id: "@adam:example.org".to_owned(),
        },
    ];
    let mut app = app_with(vec![room]);
    app.input_text = "привет @ad".to_owned();
    app.refresh_mention_completion(10);
    let offered: Vec<&str> = app
        .mention_completion
        .as_ref()
        .expect("an offer")
        .matches
        .iter()
        .map(|candidate| candidate.user_id.as_str())
        .collect();
    assert!(offered.contains(&"@ada:example.org"));
    let place = offered
        .iter()
        .position(|user_id| *user_id == "@ada:example.org")
        .unwrap();
    assert_eq!(app.accept_mention(Some(place)), Some(21));
    assert_eq!(app.input_text, "привет @Ada Lovelace ");
    assert_eq!(app.selected_mentions.len(), 1);
    app.mention_person(&MentionCandidate {
        display_name: "Adam".to_owned(),
        user_id: "@adam:example.org".to_owned(),
    });
    assert_eq!(app.input_text, "привет @Ada Lovelace @Adam ");
    assert_eq!(app.selected_mentions.len(), 2);
    app.input_text = "привет @Adam ".to_owned();
    app.reconcile_selected_mentions();
    assert_eq!(app.selected_mentions.len(), 1);
    assert_eq!(app.selected_mentions[0].user_id, "@adam:example.org");
    app.input_text = "nobody".to_owned();
    app.refresh_mention_completion(6);
    assert!(app.mention_completion.is_none());
    assert_eq!(app.accept_mention(None), None);
}

#[test]
fn moving_between_buffers() {
    let mut thread = buffer("t", "channel", "libera", 2);
    thread.plugin = "matrix".to_owned();
    thread.matrix_room_id = Some("!room:example.org".to_owned());
    thread.matrix_thread_root = Some("$root:example.org".to_owned());
    let mut hidden = buffer("h", "channel", "libera", 3);
    hidden.hidden = true;
    let mut app = app_with(vec![
        buffer("a", "channel", "libera", 1),
        thread,
        hidden,
        buffer("b", "channel", "libera", 4),
    ]);
    app.select_buffer("home/a".to_owned(), &clock(3));
    app.cycle_buffer(-1, &clock(4));
    assert_eq!(app.selected_buffer_id.as_deref(), Some("home/b"));
    app.cycle_buffer(1, &clock(4));
    assert_eq!(app.selected_buffer_id.as_deref(), Some("home/a"));
    app.jump_buffer_by_number(2, &clock(5));
    assert_eq!(app.selected_buffer_id.as_deref(), Some("home/b"));
    app.jump_buffer_by_number(3, &clock(5));
    app.jump_buffer_by_number(0, &clock(5));
    assert_eq!(app.selected_buffer_id.as_deref(), Some("home/b"));
    app.handle_event(
        "home",
        BackendEvent::LineAdded {
            buffer_id: "a".to_owned(),
            line: line("1", 100, "bob", "hi"),
        },
        &clock(6),
    );
    app.jump_next_unread(&clock(7));
    assert_eq!(app.selected_buffer_id.as_deref(), Some("home/a"));
    app.jump_next_unread(&clock(8));
    assert_eq!(app.selected_buffer_id.as_deref(), Some("home/a"));
}

#[test]
fn the_relay_lists_buffers_in_their_groups() {
    let mut app = WeeChatApp::new(&AppSettings::default());
    app.do_connect(
        &profile("home", BackendType::WeeChat),
        "",
        &TunnelOutcome::Unused,
        &clock(0),
    );
    app.take_actions();
    let body = vec![
        listed(3, "#rust", "channel", "libera"),
        listed(2, "libera", "server", "libera"),
    ];
    app.handle_event(
        "home",
        BackendEvent::WeeChat(answer("_list_buffers", body), entries(&[0, 0])),
        &clock(1),
    );
    let ids: Vec<&str> = app.buffers.iter().map(|buffer| buffer.id.as_str()).collect();
    assert_eq!(ids, vec!["home/2", "home/3"]);
    assert_eq!(app.selected_buffer_id.as_deref(), Some("home/3"));
    assert!(app
        .take_actions()
        .iter()
        .any(|action| matches!(action, Action::FetchHotlist { .. })));

    // A new line and a count from the relay.
    app.handle_event(
        "home",
        BackendEvent::WeeChat(
            event("buffer_line_added", 2, vec![relay_line(5, "notice")]),
            entries(&[100]),
        ),
        &clock(2),
    );
    assert_eq!(app.buffers[0].messages.len(), 1);
    assert_eq!(app.buffers[0].messages[0].id, "5");
    assert_eq!(app.buffers[0].unread_count, 1);
    let hot = Json::Object(vec![
        member("buffer_id", number(2)),
        member("priority", number(1)),
        member(
            "count",
            Json::Array(vec![number(0), number(4), number(0), number(0)]),
        ),
    ]);
    app.handle_event(
        "home",
        BackendEvent::WeeChat(answer("_hotlist", vec![hot]), entries(&[0])),
        &clock(3),
    );
    assert_eq!(app.buffers[0].unread_count, 4);
}

#[test]
fn snapshots_replace_the_lines_in_order_of_time() {
    let mut app = app_with(vec![buffer("7", "channel", "libera", 1)]);
    app.handle_event(
        "home",
        BackendEvent::WeeChat(
            answer(
                "_buffer_lines:7:300",
                vec![relay_line(2, "late"), relay_line(1, "early")],
            ),
            entries(&[200, 100]),
        ),
        &clock(3),
    );
    let ids: Vec<&str> = app.buffers[0]
        .messages
        .iter()
        .map(|line| line.id.as_str())
        .collect();
    assert_eq!(ids, vec!["1", "2"]);
    assert_eq!(app.buffers[0].last_read_id.as_deref(), Some("2"));
    let mut refused = answer("_buffer_lines:7:300", Vec::new());
    refused.code = Some(404);
    refused.message = Some("not found".to_owned());
    app.handle_event(
        "home",
        BackendEvent::WeeChat(refused, Vec::new()),
        &clock(4),
    );
    assert_eq!(app.buffers[0].messages.len(), 2);
    assert!(app.connections[0]
        .connection_log
        .back()
        .unwrap()
        .contains("not found"));
}

#[test]
fn older_history_is_asked_for_once() {
    let mut room = buffer("a", "channel", "libera", 1);
    room.messages.push_back(line("1", 100, "bob", "x"));
    let mut app = app_with(vec![room]);
    assert_eq!(
        app.scroll_step("home/a", 1, true, true, false),
        ScrollStep::Load
    );
    app.request_older_history("home/a", "home/a");
    assert_eq!(app.take_actions().len(), 1);
    app.request_older_history("home/a", "home/a");
    assert!(app.take_actions().is_empty());
    assert_eq!(
        app.scroll_step("home/a", 1, true, true, false),
        ScrollStep::Nothing
    );
    assert_eq!(
        app.scroll_step("home/a", 1, true, false, true),
        ScrollStep::Arm
    );
    app.handle_event(
        "home",
        BackendEvent::LinesLoaded {
            buffer_id: "a".to_owned(),
            lines: vec![line("0", 50, "bob", "older")],
            is_prepend: true,
        },
        &clock(5),
    );
    assert_eq!(app.buffers[0].messages[0].id, "0");
    assert_eq!(app.loading_more_buffer_id, None);
    assert!(app.history_exhausted_buffer_ids.contains("home/a"));
    app.arm_history_top("home/a".to_owned());
    assert!(app.history_top_armed_buffer_ids.contains("home/a"));
    app.clear_history_anchor("home/a");
    assert!(!app.history_scroll_anchors.contains_key("home/a"));
}

#[test]
fn the_sidebar_labels_its_rows() {
    let mut busy = buffer("busy", "channel", "libera", 2);
    busy.activity = BufferActivity::Highlight;
    busy.unread_count = 120;
    let mut muted = buffer("muted", "channel", "libera", 3);
    muted.muted = true;
    muted.unread_count = 5;
    let mut app = app_with(vec![buffer("libera", "server", "libera", 1), busy, muted]);
    app.buffers[1].activity = BufferActivity::Highlight;
    app.buffers[1].unread_count = 120;
    app.selected_buffer_id = None;
    let rows = app.sidebar_rows(None);
    assert_eq!(rows.len(), 3);
    assert_eq!(rows[0].label, "LIBERA");
    assert_eq!(rows[0].tone, RowTone::Root);
    assert!(rows[0].is_collapsible && !rows[0].is_collapsed);
    assert_eq!(rows[1].label, "• busy");
    assert_eq!(rows[1].badge.as_deref(), Some("99+"));
    assert!(rows[1].is_alert && rows[1].is_child);
    assert_eq!(rows[2].label, "🔇 muted");
    assert_eq!(rows[2].badge, None);
    assert!(rows.iter().all(|row| row.heading.is_none()));
    app.toggle_collapsed("libera".to_owned());
    assert_eq!(app.sidebar_rows(None).len(), 1);
    app.toggle_collapsed("libera".to_owned());
    assert_eq!(app.sidebar_rows(None).len(), 3);
    app.set_muted("home/busy", "home/irc.busy".to_owned(), true);
    assert_eq!(app.buffers[1].unread_count, 0);
    assert!(app.muted_buffer_names.contains("home/irc.busy"));
    app.set_muted("home/busy", "home/irc.busy".to_owned(), false);
    assert!(!app.muted_buffer_names.contains("home/irc.busy"));
    assert_eq!(app.dragged_group(Some("home/libera")).len(), 3);
    assert_eq!(app.dragged_group(Some("home/busy")), vec!["home/busy"]);
    app.drop_buffer("home/muted", Some("home/busy"));
    assert_eq!(
        app.buffer_order,
        vec!["home/libera", "home/muted", "home/busy"]
    );
    assert_eq!(
        app.buffer_by_id("home/busy").map(|buffer| buffer.id.as_str()),
        Some("home/busy")
    );
}

#[test]
fn several_connections_have_headings() {
    let mut app = app_with(vec![buffer("a", "channel", "libera", 1)]);
    app.do_connect(
        &profile("work", BackendType::Soju),
        "",
        &TunnelOutcome::Unused,
        &clock(3),
    );
    app.handle_event(
        "work",
        BackendEvent::BufferOpened(buffer("b", "channel", "oftc", 1)),
        &clock(4),
    );
    let rows = app.sidebar_rows(None);
    assert_eq!(rows[0].heading.as_deref(), Some("HOME"));
    assert!(!rows[0].begins_connection);
    assert_eq!(rows[1].heading.as_deref(), Some("WORK"));
    assert!(rows[1].begins_connection);
}

#[test]
fn menus_offer_what_fits() {
    let mut channel = buffer("a", "channel", "libera", 1);
    assert_eq!(
        buffer_menu(&channel),
        vec![MenuCommand::Part, MenuCommand::Hide, MenuCommand::Close]
    );
    channel.kind = "private".to_owned();
    channel.hidden = true;
    assert_eq!(
        buffer_menu(&channel),
        vec![MenuCommand::Unhide, MenuCommand::Close]
    );
    assert_eq!(MenuCommand::Unhide.text(), "/buffer unhide");
    assert_eq!(MenuCommand::Part.text(), "/part");
}

#[test]
fn attachments_wait_for_their_echo() {
    let mut room = buffer("room", "channel", "matrix", 1);
    room.plugin = "matrix".to_owned();
    room.matrix_upload_v1 = true;
    let mut app = app_with(vec![room, buffer("irc", "channel", "libera", 2)]);
    assert!(app.start_matrix_clipboard_upload("home/room", &clock(1)));
    assert!(app.file_share_uploading);
    app.file_share_arrived(
        Ok(PreparedFileShare::MatrixAttachment {
            buffer_id: "home/room".to_owned(),
            filename: "clipboard.png".to_owned(),
            mime: "image/png".to_owned(),
            bytes: vec![1, 2, 3],
        }),
        "clip1".to_owned(),
        &clock(2),
    );
    let commands = sent(&app.take_actions());
    assert_eq!(commands.len(), 3);
    assert!(commands[0].1.starts_with("/matrix-upload begin clip1 "));
    assert_eq!(commands[1].1, "/matrix-upload chunk clip1 0 AQID");
    assert_eq!(commands[2].1, "/matrix-upload commit clip1");
    assert!(app.file_share_uploading);
    let media = MatrixMedia {
        mxc_uri: "mxc://example.org/x".to_owned(),
        name: "clipboard.png".to_owned(),
        kind: "image".to_owned(),
    };
    app.acknowledge_matrix_attachment("home/room", Some(&media), false);
    assert!(app.file_share_uploading);
    app.acknowledge_matrix_attachment("home/room", Some(&media), true);
    assert!(!app.file_share_uploading);

    assert!(!app.start_matrix_clipboard_upload("home/irc", &clock(3)));
    assert!(app.file_share_error.is_some());
    app.file_share_arrived(
        Ok(PreparedFileShare::ExternalLink {
            buffer_id: "home/irc".to_owned(),
            url: "https://files.interdo.me/x".to_owned(),
        }),
        "unused".to_owned(),
        &clock(4),
    );
    assert_eq!(
        sent(&app.take_actions()),
        vec![("irc".to_owned(), "https://files.interdo.me/x".to_owned())]
    );
}

#[test]
fn uploads_without_an_echo_time_out() {
    let mut room = buffer("room", "channel", "matrix", 1);
    room.plugin = "matrix".to_owned();
    room.matrix_upload_v1 = true;
    let mut app = app_with(vec![room]);
    assert!(app.start_matrix_clipboard_upload("home/room", &clock(1)));
    app.check_file_share_timeout(&clock(2));
    assert!(app.file_share_uploading);
    app.check_file_share_timeout(&clock(90_000_000_001));
    assert!(!app.file_share_uploading);
    assert!(app.file_share_error.is_some());
}

#[test]
fn deletions_are_confirmed_first() {
    let mut room = buffer("room", "channel", "matrix", 1);
    room.plugin = "matrix".to_owned();
    let mut app = app_with(vec![room]);
    let target = |event: &str| weechatrs::state::RedactionTarget {
        buffer_id: "home/room".to_owned(),
        matrix_event_id: event.to_owned(),
        sender: "ada".to_owned(),
        message: "text".to_owned(),
    };
    app.ask_redaction(Some(target("$event:example.org")));
    app.confirm_redaction();
    assert!(app.pending_redaction.is_none());
    assert_eq!(
        sent(&app.take_actions()),
        vec![("room".to_owned(), "/redact $event:example.org".to_owned())]
    );
    app.ask_redaction(Some(target("latest")));
    app.confirm_redaction();
    assert!(app.pending_redaction.is_some());
    assert!(app.pending_redaction_error.is_some());
    app.cancel_redaction();
    assert!(app.pending_redaction.is_none());
    assert!(app.pending_redaction_error.is_none());
}

#[test]
fn small_labels() {
    assert_eq!(composer_hint(false, "channel"), "Disconnected — reconnect before sending");
    assert_eq!(
        composer_hint(true, "server"),
        "Type /join #channel or any IRC command..."
    );
    assert_eq!(composer_hint(true, "channel"), "Type a message...");
    assert_eq!(completion_title("command", 3), "COMMANDS · 3");
    assert_eq!(completion_title("null", 12), "ARGUMENTS · 12");
    assert_eq!(completion_label("command", "join"), "/join");
    assert_eq!(completion_label("command", "/join"), "/join");
    assert_eq!(completion_label("null", "join"), "join");
    assert_eq!(log_tone_of("[x]  Disconnected"), LogTone::Bad);
    assert_eq!(log_tone_of("[x]  SSH tunnel failed to start"), LogTone::Bad);
    assert_eq!(log_tone_of("[x]  Connected"), LogTone::Good);
    assert_eq!(log_tone_of("[x]  Connecting"), LogTone::Neutral);
}

#[test]
fn the_log_opens_and_closes() {
    let mut app = app_with(Vec::new());
    assert!(app.connection_log_unread);
    app.toggle_connection_log();
    assert!(app.show_connection_log && !app.connection_log_unread);
    app.handle_event("home", BackendEvent::ConnLog("x".to_owned()), &clock(3));
    assert!(!app.connection_log_unread);
    assert_eq!(app.shown_log(), Some(0));
    app.toggle_connection_log();
    assert!(!app.show_connection_log);
}

fn dated_line(id: i64, date: &str) -> Json {
    let Json::Object(mut members) = relay_line(id, "dated") else {
        panic!("a line is an object");
    };
    members.push(member("date", text(date)));
    Json::Object(members)
}

#[test]
fn lines_carry_the_date_that_was_sent() {
    let mut app = app_with(vec![buffer("7", "channel", "libera", 1)]);
    let body = vec![
        dated_line(1, "1970-01-01T00:01:40Z"),
        dated_line(2, "200"),
        dated_line(3, "1970-01-01 00:00:00"),
        dated_line(4, "soon"),
    ];
    let mut entries = entries(&[900, 900, 900, 900]);
    entries[2].local = Some(at(300));
    app.handle_event(
        "home",
        BackendEvent::WeeChat(event("buffer_line_added", 7, body), entries),
        &clock(3),
    );
    let dates: Vec<i64> = app.buffers[0]
        .messages
        .iter()
        .map(|line| line.timestamp.secs)
        .collect();
    assert_eq!(dates, vec![100, 200, 300, 900]);
}

#[test]
fn column_widths_are_kept_for_known_buffers() {
    let app = app_with(vec![
        buffer("7", "channel", "libera", 1),
        buffer("8", "channel", "libera", 2),
    ]);
    let mut ids: Vec<String> = (0..PREFIX_COL_WIDTHS_MAX - 1).map(|n| format!("gone {n}")).collect();
    ids.push(app.buffers[0].id.clone());
    assert_eq!(app.kept_column_ids(ids.clone()), ids);
    ids.push(app.buffers[1].id.clone());
    assert_eq!(
        app.kept_column_ids(ids),
        vec![app.buffers[0].id.clone(), app.buffers[1].id.clone()]
    );
}
