use std::collections::VecDeque;

use weechatrs::json::{Json, JsonMember, JsonNumber};
use weechatrs::models::{
    message_mentions_any_alias, Buffer, BufferActivity, Line, MatrixMemberProfile,
    MatrixReplyLineKind, MentionCandidate,
};
use weechatrs::order::{
    apply_drag_reorder, apply_saved_buffer_order, buffer_groups_are_valid, sort_buffers,
    sort_lines_chronologically,
};
use weechatrs::state::WeeChatApp;
use weechatrs::tags::matrix_history_page_status;
use weechatrs::time::Timestamp;

fn member(key: &str, value: Json) -> JsonMember {
    JsonMember {
        key: key.to_owned(),
        value,
    }
}

fn text(value: &str) -> Json {
    Json::Text(value.to_owned())
}

fn tags(list: &[&str]) -> Vec<JsonMember> {
    vec![member(
        "tags",
        Json::Array(list.iter().map(|tag| text(tag)).collect()),
    )]
}

fn local_variables(list: &[(&str, &str)]) -> Vec<JsonMember> {
    vec![member(
        "local_variables",
        Json::Object(
            list.iter()
                .map(|(key, value)| member(key, text(value)))
                .collect(),
        ),
    )]
}

fn matrix_buffer() -> Buffer {
    Buffer {
        id: "matrix/room".to_owned(),
        number: 1,
        name: "#postgis".to_owned(),
        full_name: "matrix.matrix.room".to_owned(),
        plugin: "matrix".to_owned(),
        kind: "channel".to_owned(),
        server: "matrix".to_owned(),
        own_nick: "Darafei Praliaskouski".to_owned(),
        messages: VecDeque::new(),
        nicks: Vec::new(),
        mention_candidates: vec![MentionCandidate {
            display_name: "Darafei Praliaskouski".to_owned(),
            user_id: "@komzpa:matrix.org".to_owned(),
        }],
        matrix_member_profiles: Vec::new(),
        activity: BufferActivity::Idle,
        unread_count: 0,
        last_read_id: None,
        last_markread_ts: None,
        topic: String::new(),
        modes: String::new(),
        hidden: false,
        muted: false,
        has_nicklist: true,
        matrix_room_id: Some("!room:example.org".to_owned()),
        matrix_predecessor_room_id: None,
        matrix_replacement_room_id: None,
        matrix_thread_root: None,
        matrix_upload_v1: true,
        matrix_avatar_mxc: None,
        visit_start_marker_id: None,
    }
}

fn sidebar_buffer(id: &str, number: i32, server: &str, kind: &str) -> Buffer {
    Buffer {
        id: id.to_owned(),
        number,
        name: id.to_owned(),
        full_name: id.to_owned(),
        plugin: if server == "matrix" { "matrix" } else { "irc" }.to_owned(),
        kind: kind.to_owned(),
        server: server.to_owned(),
        own_nick: String::new(),
        mention_candidates: Vec::new(),
        has_nicklist: kind != "server",
        matrix_room_id: None,
        matrix_upload_v1: false,
        ..matrix_buffer()
    }
}

fn ids(buffers: &[Buffer]) -> Vec<&str> {
    buffers.iter().map(|buffer| buffer.id.as_str()).collect()
}

#[test]
fn matrix_display_name_and_mxid_aliases_highlight_own_mentions() {
    let buffer = matrix_buffer();
    let aliases = buffer.own_mention_aliases();
    assert!(message_mentions_any_alias(
        "whatever Darafei is using",
        &aliases
    ));
    assert!(message_mentions_any_alias("ping @komzpa:matrix.org", &aliases));
    assert!(message_mentions_any_alias("ping komzpa", &aliases));
    assert!(!message_mentions_any_alias(
        "a komzpapost is not a mention",
        &aliases
    ));
}

#[test]
fn matrix_image_metadata_is_read_from_structured_tags() {
    let object = tags(&[
        "matrix_media",
        "matrix_media_kind_image",
        "matrix_media_name_aW1hZ2UucG5n",
        "matrix_media_uri_bXhjOi8vbWF0cml4Lm9yZy9zb21lLW1lZGlhLWlk",
    ]);
    let media = WeeChatApp::matrix_media_from_tags(&object).expect("valid image metadata");
    assert_eq!(media.kind, "image");
    assert_eq!(media.name, "image.png");
    assert_eq!(media.mxc_uri, "mxc://matrix.org/some-media-id");
}

#[test]
fn non_mxc_matrix_media_uri_is_rejected() {
    let object = tags(&[
        "matrix_media",
        "matrix_media_kind_image",
        "matrix_media_name_aW1hZ2UucG5n",
        "matrix_media_uri_aHR0cHM6Ly9leGFtcGxlLm9yZy9pbWFnZS5wbmc",
    ]);
    assert!(WeeChatApp::matrix_media_from_tags(&object).is_none());
}

#[test]
fn matrix_member_profiles_require_safe_structured_identity_and_avatar() {
    let listed = vec![
        MatrixMemberProfile {
            user_id: "@ada:example.org".to_owned(),
            display_name: "Ada".to_owned(),
            nick: "Ada".to_owned(),
            membership: "join".to_owned(),
            role: "moderator".to_owned(),
            power_level: Some(50),
            avatar_mxc: Some("mxc://example.org/avatar".to_owned()),
        },
        MatrixMemberProfile {
            user_id: "@bad id:example.org".to_owned(),
            display_name: "Bad".to_owned(),
            nick: "Bad".to_owned(),
            membership: "join".to_owned(),
            role: "member".to_owned(),
            power_level: Some(0),
            avatar_mxc: Some("https://example.org/avatar.png".to_owned()),
        },
    ];
    let profiles = WeeChatApp::extract_matrix_member_profiles(listed);
    assert_eq!(profiles.len(), 1);
    assert_eq!(profiles[0].user_id, "@ada:example.org");
    assert_eq!(
        profiles[0].avatar_mxc.as_deref(),
        Some("mxc://example.org/avatar")
    );
}

#[test]
fn member_lists_are_found_among_the_local_variables() {
    let object = local_variables(&[("matrix_members_v1", "[1]"), ("matrix_mentions_v1", "[2]")]);
    assert_eq!(WeeChatApp::matrix_members_text(&object), Some("[1]"));
    assert_eq!(WeeChatApp::matrix_members_text(&tags(&[])), None);
}

#[test]
fn stale_unprefixed_order_cannot_flatten_server_groups() {
    let mut buffers = vec![
        sidebar_buffer("localhost/libera-root", 1, "libera", "server"),
        sidebar_buffer("localhost/libera-room", 2, "libera", "channel"),
        sidebar_buffer("localhost/matrix-root", 1, "matrix", "server"),
        sidebar_buffer("localhost/matrix-room", 3, "matrix", "channel"),
    ];
    let grouped_ids = buffers
        .iter()
        .map(|buffer| buffer.id.clone())
        .collect::<Vec<_>>();
    let legacy_order = vec![
        "libera-root".to_owned(),
        "matrix-root".to_owned(),
        "libera-room".to_owned(),
        "matrix-room".to_owned(),
    ];

    assert!(!apply_saved_buffer_order(&mut buffers, &legacy_order));
    assert!(buffer_groups_are_valid(&buffers));
    assert_eq!(
        buffers
            .iter()
            .map(|buffer| buffer.id.clone())
            .collect::<Vec<_>>(),
        grouped_ids,
    );
}

#[test]
fn valid_saved_order_can_move_complete_server_groups() {
    let mut buffers = vec![
        sidebar_buffer("localhost/libera-root", 1, "libera", "server"),
        sidebar_buffer("localhost/libera-room", 2, "libera", "channel"),
        sidebar_buffer("localhost/matrix-root", 1, "matrix", "server"),
        sidebar_buffer("localhost/matrix-room", 3, "matrix", "channel"),
    ];
    let order = vec![
        "localhost/matrix-root".to_owned(),
        "localhost/matrix-room".to_owned(),
        "localhost/libera-root".to_owned(),
        "localhost/libera-room".to_owned(),
    ];

    assert!(apply_saved_buffer_order(&mut buffers, &order));
    assert!(buffer_groups_are_valid(&buffers));
    assert_eq!(
        ids(&buffers),
        vec![
            "localhost/matrix-root",
            "localhost/matrix-room",
            "localhost/libera-root",
            "localhost/libera-room",
        ],
    );
}

#[test]
fn natural_order_puts_roots_first_in_each_server() {
    let mut buffers = vec![
        sidebar_buffer("c/m2", 9, "matrix", "channel"),
        sidebar_buffer("c/l1", 4, "libera", "channel"),
        sidebar_buffer("c/m0", 12, "matrix", "server"),
        sidebar_buffer("c/l0", 7, "libera", "server"),
        sidebar_buffer("c/l2", 3, "libera", "channel"),
    ];
    sort_buffers(&mut buffers);
    assert_eq!(ids(&buffers), vec!["c/l0", "c/l2", "c/l1", "c/m0", "c/m2"]);
    assert!(buffer_groups_are_valid(&buffers));
}

#[test]
fn torn_groups_are_not_valid() {
    let buffers = vec![
        sidebar_buffer("c/l0", 1, "libera", "server"),
        sidebar_buffer("c/m0", 2, "matrix", "server"),
        sidebar_buffer("c/l1", 3, "libera", "channel"),
    ];
    assert!(!buffer_groups_are_valid(&buffers));
    let roots_last = vec![
        sidebar_buffer("c/l1", 3, "libera", "channel"),
        sidebar_buffer("c/l0", 1, "libera", "server"),
    ];
    assert!(!buffer_groups_are_valid(&roots_last));
}

#[test]
fn dragging_a_server_moves_its_channels() {
    let list = || {
        vec![
            sidebar_buffer("c/l0", 1, "libera", "server"),
            sidebar_buffer("c/l1", 2, "libera", "channel"),
            sidebar_buffer("c/m0", 1, "matrix", "server"),
            sidebar_buffer("c/m1", 3, "matrix", "channel"),
        ]
    };
    let mut buffers = list();
    apply_drag_reorder(&mut buffers, "c/m0", Some("c/l0"));
    assert_eq!(ids(&buffers), vec!["c/m0", "c/m1", "c/l0", "c/l1"]);
    let mut buffers = list();
    apply_drag_reorder(&mut buffers, "c/l0", None);
    assert_eq!(ids(&buffers), vec!["c/m0", "c/m1", "c/l0", "c/l1"]);
    let mut buffers = list();
    apply_drag_reorder(&mut buffers, "c/nobody", None);
    assert_eq!(ids(&buffers), ids(&list()));
}

fn timeline_line(id: &str, second: i64) -> Line {
    Line::new(
        id.to_owned(),
        Timestamp {
            secs: second,
            nanos: 0,
        },
        String::new(),
        id.to_owned(),
        true,
        false,
    )
}

#[test]
fn relay_snapshots_are_stably_normalized_oldest_first() {
    let mut lines = vec![
        timeline_line("newest", 300),
        timeline_line("same-time-first", 200),
        timeline_line("same-time-second", 200),
        timeline_line("oldest", 100),
    ];

    sort_lines_chronologically(&mut lines);

    assert_eq!(
        lines.iter().map(|line| line.id.as_str()).collect::<Vec<_>>(),
        vec!["oldest", "same-time-first", "same-time-second", "newest"],
    );
}

#[test]
fn parses_matrix_history_completion_marker() {
    assert_eq!(
        matrix_history_page_status("matrix_history_page added=200 exhausted=0"),
        Some((200, false))
    );
    assert_eq!(
        matrix_history_page_status("matrix_history_page added=0 exhausted=1 state=unavailable"),
        Some((0, true))
    );
    assert_eq!(matrix_history_page_status("ordinary message"), None);
}

#[test]
fn matrix_event_id_is_read_from_weechat_tags() {
    let array = tags(&["notify_message", "matrix_id_$selected:remote.example"]);
    let string = vec![member(
        "tags",
        text("notify_message, matrix_id_$older:remote.example"),
    )];

    assert_eq!(
        WeeChatApp::tag_value(&array, "matrix_id_"),
        Some("$selected:remote.example".to_owned())
    );
    assert_eq!(
        WeeChatApp::tag_value(&string, "matrix_id_"),
        Some("$older:remote.example".to_owned())
    );
}

#[test]
fn matrix_reply_metadata_is_read_from_weechat_tags() {
    let object = tags(&[
        "matrix_reply",
        "matrix_reply_header",
        "matrix_reply_sender_hex_416c69636520f09f988a",
        "matrix_reply_id_$original:remote.example",
    ]);
    let reply = WeeChatApp::matrix_reply_from_tags(&object).expect("reply metadata");

    assert!(matches!(reply.kind, MatrixReplyLineKind::Header));
    assert_eq!(reply.sender.as_deref(), Some("Alice 😊"));
    assert_eq!(
        reply.event_id.as_deref(),
        Some("$original:remote.example")
    );
}

#[test]
fn legacy_matrix_reply_line_stays_plain_text() {
    let object = tags(&["matrix_reply", "matrix_id_$reply:remote.example"]);

    assert!(WeeChatApp::matrix_reply_from_tags(&object).is_none());
}

#[test]
fn matrix_thread_requires_exact_room_and_root_localvars() {
    let object = local_variables(&[
        ("plugin", "matrix"),
        ("room_id", "!room:example.org"),
        ("thread_root", "$root:example.org"),
    ]);
    assert_eq!(
        WeeChatApp::extract_matrix_buffer_metadata(&object),
        (
            Some("!room:example.org".to_owned()),
            Some("$root:example.org".to_owned())
        )
    );
    assert_eq!(WeeChatApp::extract_buffer_plugin(&object), "matrix");

    let malformed = local_variables(&[
        ("room_id", "#not-a-room"),
        ("thread_root", "$bad root"),
    ]);
    assert_eq!(
        WeeChatApp::extract_matrix_buffer_metadata(&malformed),
        (None, None)
    );
}

#[test]
fn malformed_matrix_event_tag_is_not_replyable() {
    let object = tags(&["matrix_id_not-an-event", "matrix_id_$bad event"]);

    assert_eq!(WeeChatApp::tag_value(&object, "matrix_id_"), None);
}

#[test]
fn hex_text_has_to_be_whole_and_valid() {
    assert_eq!(
        WeeChatApp::decode_hex_utf8("416c"),
        Some("Al".to_owned())
    );
    assert_eq!(WeeChatApp::decode_hex_utf8("416"), None);
    assert_eq!(WeeChatApp::decode_hex_utf8("zz"), None);
    assert_eq!(WeeChatApp::decode_hex_utf8("ff"), None);
}

#[test]
fn nick_lists_are_read_through_their_groups() {
    let nick = |name: &str, prefix: &str| {
        Json::Object(vec![
            member("name", text(name)),
            member("prefix", text(prefix)),
        ])
    };
    let group = Json::Object(vec![
        member("name", text("root")),
        member(
            "groups",
            Json::Array(vec![Json::Object(vec![
                member("name", text("000|o")),
                member("nicks", Json::Array(vec![nick("ada", "@")])),
            ])]),
        ),
        member("nicks", Json::Array(vec![nick("bob", "")])),
    ]);
    let mut nicks = Vec::new();
    WeeChatApp::extract_nicks(&group, &mut nicks);
    let mut names: Vec<&str> = nicks.iter().map(|nick| nick.name.as_str()).collect();
    names.sort();
    assert_eq!(names, vec!["ada", "bob"]);
}

#[test]
fn ids_are_numbers_or_texts() {
    let number = Json::Number(JsonNumber {
        signed: Some(42),
        unsigned: Some(42),
        truncated: 42,
    });
    assert_eq!(number.parse_id(), Some("42".to_owned()));
    assert_eq!(text("abc").parse_id(), Some("abc".to_owned()));
    assert_eq!(Json::Null.parse_id(), None);
}
