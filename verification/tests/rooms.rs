use std::collections::VecDeque;

use weechatrs::ansi::ANSIParser;
use weechatrs::collections::TextSet;
use weechatrs::connection::{restored_cleared_buffer_names, AppSettings};
use weechatrs::content::{message_links, preview_targets, CheckedLink};
use weechatrs::history::should_auto_request_history;
use weechatrs::markers::{
    visit_marker_location, SavedReadMarker, VisitMarkerLocation, BEFORE_FIRST_LOADED_LINE_ID,
};
use weechatrs::media::is_image_url;
use weechatrs::models::{
    Buffer, BufferActivity, Line, MatrixMedia, MatrixMemberProfile, MatrixReplyContext,
    MatrixReplyLineKind,
};
use weechatrs::people::{compact_matrix_prefix_sections, message_sender_profile_card};
use weechatrs::rooms::{
    buffer_visible_in_sidebar, composed_upgrade_history, predecessor_buffer_ids,
    preferred_chat_buffer_id, replaced_matrix_room_ids, replacement_buffer_id,
    upgrade_history_load_buffer_id,
};
use weechatrs::state::WeeChatApp;
use weechatrs::threads::{
    group_thread_lines, redundant_room_reply_header, reply_contexts_by_event,
    room_reply_context_for_body_line,
};
use weechatrs::time::Timestamp;

fn text_set(items: &[&str]) -> TextSet {
    let mut set = TextSet::new();
    for item in items {
        set.insert(item.to_string());
    }
    set
}


fn line(id: &str, timestamp: i64) -> Line {
    Line::new(
        id.to_owned(),
        Timestamp { secs: timestamp, nanos: 0 },
        "alice".to_owned(),
        "message".to_owned(),
        true,
        false,
    )
}

fn buffer(id: &str, full_name: &str, kind: &str) -> Buffer {
    Buffer {
        id: id.to_owned(),
        number: 1,
        name: full_name.to_owned(),
        full_name: full_name.to_owned(),
        plugin: "matrix".to_owned(),
        kind: kind.to_owned(),
        server: "matrix".to_owned(),
        own_nick: String::new(),
        messages: VecDeque::new(),
        nicks: Vec::new(),
        mention_candidates: Vec::new(),
        matrix_member_profiles: Vec::new(),
        activity: BufferActivity::Idle,
        unread_count: 0,
        last_read_id: None,
        last_markread_ts: None,
        topic: String::new(),
        modes: String::new(),
        hidden: false,
        muted: false,
        has_nicklist: true,
        matrix_room_id: None,
        matrix_predecessor_room_id: None,
        matrix_replacement_room_id: None,
        matrix_thread_root: None,
        matrix_upload_v1: false,
        matrix_avatar_mxc: None,
        visit_start_marker_id: None,
    }
}

#[test]
fn saved_read_marker_survives_settings_round_trip() {
    let mut settings = AppSettings::default();
    settings.read_markers.insert(
        "local/matrix.matrix.!room:example.org".to_owned(),
        SavedReadMarker {
            line_id: "123".to_owned(),
            timestamp_nanos: 1_750_000_000_000_000_000,
        },
    );
    settings.cleared_buffer_names.insert(
        "local/matrix.matrix.!room:example.org".to_owned(),
    );
    settings.last_chat_buffer_name =
        Some("local/matrix.matrix.!room:example.org".to_owned());

    let restored = WeeChatApp::new(&settings).save(&settings);
    let name = "local/matrix.matrix.!room:example.org";
    assert_eq!(restored.read_markers.len(), settings.read_markers.len());
    assert_eq!(restored.read_markers.get(name), settings.read_markers.get(name));
    assert_eq!(
        restored.cleared_buffer_names.items(),
        settings.cleared_buffer_names.items()
    );
    assert_eq!(restored.last_chat_buffer_name, settings.last_chat_buffer_name);
}

#[test]
fn stable_cleared_names_migrate_from_saved_read_markers() {
    let mut settings = AppSettings::default();
    let name = "local/matrix.matrix.!room:example.org".to_owned();
    settings.read_markers.insert(
        name.clone(),
        SavedReadMarker {
            line_id: "old-id".to_owned(),
            timestamp_nanos: 200,
        },
    );

    assert!(restored_cleared_buffer_names(&settings).contains(name.as_str()));
}

#[test]
fn saved_read_marker_never_moves_backwards() {
    let current = SavedReadMarker {
        line_id: "newer".to_owned(),
        timestamp_nanos: 200,
    };
    let older = SavedReadMarker {
        line_id: "older-snapshot".to_owned(),
        timestamp_nanos: 100,
    };
    let newer = SavedReadMarker {
        line_id: "newest".to_owned(),
        timestamp_nanos: 300,
    };

    assert_eq!(current.advanced_with(older), current);
    assert_eq!(current.advanced_with(newer.clone()), newer);
}

#[test]
fn last_chat_restore_prefers_the_exact_visible_room_over_service_buffers() {
    let core = buffer("local/core", "local/core.weechat", "core");
    let server = buffer("local/server", "local/irc.server.libera", "server");
    let mut thread = buffer("local/thread", "local/matrix.matrix.!room:example.org", "channel");
    thread.matrix_room_id = Some("!room:example.org".to_owned());
    thread.matrix_thread_root = Some("$root:example.org".to_owned());
    let other = buffer("local/other", "local/matrix.matrix.!other:example.org", "channel");
    let remembered = buffer("local/room", "local/matrix.matrix.!room:example.org", "channel");

    assert_eq!(
        preferred_chat_buffer_id(
            &vec![core, server, thread.clone(), other.clone(), remembered],
            Some("local/matrix.matrix.!room:example.org"),
        ),
        Some("local/room".to_owned()),
    );
    assert_eq!(
        preferred_chat_buffer_id(&vec![thread, other], None),
        Some("local/other".to_owned()),
    );
}

#[test]
fn matrix_room_upgrade_is_one_visible_chat_with_read_only_predecessor_history() {
    let mut predecessor = buffer(
        "local/old",
        "local/matrix.matrix.!old:example.org",
        "channel",
    );
    predecessor.matrix_room_id = Some("!old:example.org".to_owned());
    predecessor.matrix_replacement_room_id = Some("!new:example.org".to_owned());
    predecessor.messages.push_back(line("old-history", 10));
    predecessor.messages.push_back(line("late-old-message", 40));

    let mut successor = buffer(
        "local/new",
        "local/matrix.matrix.!new:example.org",
        "channel",
    );
    successor.matrix_room_id = Some("!new:example.org".to_owned());
    successor.matrix_predecessor_room_id = Some("!old:example.org".to_owned());
    successor.messages.push_back(line("new-history", 20));
    successor.messages.push_back(line("new-latest", 30));

    let mut thread = buffer(
        "local/new-thread",
        "local/matrix.matrix.!new:example.org.thread.root",
        "channel",
    );
    thread.matrix_room_id = Some("!new:example.org".to_owned());
    thread.matrix_thread_root = Some("$root:example.org".to_owned());

    let buffers = vec![predecessor, thread, successor];
    let replaced = replaced_matrix_room_ids(&buffers);
    assert!(replaced.contains("!old:example.org"));
    assert_eq!(
        replacement_buffer_id(&buffers, "local/old").as_deref(),
        Some("local/new"),
    );
    assert_eq!(
        preferred_chat_buffer_id(
            &buffers,
            Some("local/matrix.matrix.!old:example.org"),
        )
        .as_deref(),
        Some("local/new"),
    );

    let (messages, inherited) = composed_upgrade_history(&buffers, "local/new");
    let ids = messages.iter().map(|line| line.id.as_str()).collect::<Vec<_>>();
    assert_eq!(
        ids,
        vec![
            "upgrade-history:local/old:old-history",
            "new-history",
            "new-latest",
            "upgrade-history:local/old:late-old-message",
        ],
    );
    assert!(inherited.contains("upgrade-history:local/old:old-history"));
    assert!(inherited.contains("upgrade-history:local/old:late-old-message"));
    let mut exhausted = TextSet::new();
    assert_eq!(
        upgrade_history_load_buffer_id(&buffers, "local/new", &exhausted).as_deref(),
        Some("local/new"),
    );
    exhausted.insert("local/new".to_owned());
    assert_eq!(
        upgrade_history_load_buffer_id(&buffers, "local/new", &exhausted).as_deref(),
        Some("local/old"),
    );
}

#[test]
fn matrix_room_upgrade_selection_follows_successor_chain_to_latest_room() {
    let mut oldest = buffer("local/oldest", "oldest", "channel");
    oldest.matrix_room_id = Some("!oldest:example.org".to_owned());
    oldest.matrix_replacement_room_id = Some("!middle:example.org".to_owned());

    let mut middle = buffer("local/middle", "middle", "channel");
    middle.matrix_room_id = Some("!middle:example.org".to_owned());
    middle.matrix_predecessor_room_id = Some("!oldest:example.org".to_owned());
    middle.matrix_replacement_room_id = Some("!latest:example.org".to_owned());

    let mut latest = buffer("local/latest", "latest", "channel");
    latest.matrix_room_id = Some("!latest:example.org".to_owned());
    latest.matrix_predecessor_room_id = Some("!middle:example.org".to_owned());

    let buffers = vec![oldest, middle, latest];
    assert_eq!(
        replacement_buffer_id(&buffers, "local/oldest").as_deref(),
        Some("local/latest"),
    );
    assert_eq!(
        replacement_buffer_id(&buffers, "local/middle").as_deref(),
        Some("local/latest"),
    );
}

#[test]
fn last_chat_restore_falls_back_when_the_saved_room_disappeared() {
    let first_visible = buffer(
        "local/other",
        "local/matrix.matrix.!other:example.org",
        "channel",
    );

    assert_eq!(
        preferred_chat_buffer_id(
            &vec![first_visible],
            Some("local/matrix.matrix.!gone:example.org"),
        ),
        Some("local/other".to_owned()),
    );
}

#[test]
fn sidebar_visibility_excludes_threads_hidden_rows_and_collapsed_children() {
    let root = buffer("local/root", "server", "server");
    let child = buffer("local/child", "#visible", "channel");
    let mut hidden = buffer("local/hidden", "#hidden", "channel");
    hidden.hidden = true;
    let mut thread = buffer("local/thread", "thread", "channel");
    thread.matrix_room_id = Some("!room:example.org".to_owned());
    thread.matrix_thread_root = Some("$root:example.org".to_owned());

    let collapsed = text_set(&["matrix"]);
    let replaced = TextSet::new();
    assert!(buffer_visible_in_sidebar(&root, false, &collapsed, &replaced));
    assert!(!buffer_visible_in_sidebar(&child, false, &collapsed, &replaced));
    assert!(!buffer_visible_in_sidebar(&hidden, false, &TextSet::new(), &replaced));
    assert!(buffer_visible_in_sidebar(&hidden, true, &TextSet::new(), &replaced));
    assert!(!buffer_visible_in_sidebar(&thread, true, &TextSet::new(), &replaced));

    let mut predecessor = buffer("local/old", "#postgis", "channel");
    predecessor.matrix_room_id = Some("!old:example.org".to_owned());
    let replaced = text_set(&["!old:example.org"]);
    assert!(!buffer_visible_in_sidebar(
        &predecessor,
        false,
        &TextSet::new(),
        &replaced,
    ));
    assert!(!buffer_visible_in_sidebar(
        &predecessor,
        true,
        &TextSet::new(),
        &replaced,
    ));
}

#[test]
fn matrix_room_upgrade_hides_predecessor_from_successor_edge_only() {
    let mut predecessor = buffer("local/old", "#postgis", "channel");
    predecessor.matrix_room_id = Some("!old:example.org".to_owned());

    let mut successor = buffer("local/new", "#postgis", "channel");
    successor.matrix_room_id = Some("!new:example.org".to_owned());
    successor.matrix_predecessor_room_id = Some("!old:example.org".to_owned());

    let replaced = replaced_matrix_room_ids(&vec![predecessor.clone(), successor.clone()]);
    assert!(replaced.contains("!old:example.org"));
    assert_eq!(
        replacement_buffer_id(&vec![predecessor.clone(), successor.clone()], "local/old")
            .as_deref(),
        Some("local/new"),
    );
    assert!(!buffer_visible_in_sidebar(
        &predecessor,
        true,
        &TextSet::new(),
        &replaced,
    ));
}

#[test]
fn matrix_room_upgrade_handles_legacy_replacement_without_server_name() {
    let mut predecessor = buffer("local/old", "#weechat-matrix", "channel");
    predecessor.matrix_room_id =
        Some("!twcBhHVdZlQWuuxBhN:termina.org.uk".to_owned());
    predecessor.matrix_replacement_room_id =
        Some("!FG5QpOI_8bKulTsRaAaDgVxcRTwg0ZoIRlWHThl69NI".to_owned());

    let mut successor = buffer("local/new", "#weechat-matrix", "channel");
    successor.matrix_room_id =
        Some("!FG5QpOI_8bKulTsRaAaDgVxcRTwg0ZoIRlWHThl69NI".to_owned());
    successor.matrix_predecessor_room_id =
        Some("!twcBhHVdZlQWuuxBhN:termina.org.uk".to_owned());

    let buffers = vec![predecessor.clone(), successor.clone()];
    let replaced = replaced_matrix_room_ids(&buffers);

    assert!(replaced.contains("!twcBhHVdZlQWuuxBhN:termina.org.uk"));
    assert_eq!(
        replacement_buffer_id(&buffers, "local/old").as_deref(),
        Some("local/new"),
    );
    assert!(!buffer_visible_in_sidebar(
        &predecessor,
        false,
        &TextSet::new(),
        &replaced,
    ));
}

#[test]
fn matrix_room_upgrade_keeps_tombstoned_room_until_successor_is_listed() {
    let mut predecessor = buffer("local/old", "#postgis", "channel");
    predecessor.matrix_room_id = Some("!old:example.org".to_owned());
    predecessor.matrix_replacement_room_id = Some("!new:example.org".to_owned());

    let replaced = replaced_matrix_room_ids(&vec![predecessor.clone()]);
    assert!(!replaced.contains("!old:example.org"));
    assert!(buffer_visible_in_sidebar(
        &predecessor,
        false,
        &TextSet::new(),
        &replaced,
    ));
    assert!(buffer_visible_in_sidebar(
        &predecessor,
        true,
        &TextSet::new(),
        &replaced,
    ));
}

#[test]
fn upgrade_history_keeps_equal_buffer_local_line_ids_distinct() {
    let mut predecessor = buffer("local/old", "old", "channel");
    predecessor.matrix_room_id = Some("!old:example.org".to_owned());
    predecessor.matrix_replacement_room_id = Some("!new:example.org".to_owned());
    predecessor.messages.push_back(line("7", 10));

    let mut successor = buffer("local/new", "new", "channel");
    successor.matrix_room_id = Some("!new:example.org".to_owned());
    successor.matrix_predecessor_room_id = Some("!old:example.org".to_owned());
    successor.messages.push_back(line("7", 20));

    let (messages, inherited) =
        composed_upgrade_history(&vec![predecessor, successor], "local/new");
    assert_eq!(messages.len(), 2);
    assert_eq!(messages[0].id, "upgrade-history:local/old:7");
    assert_eq!(messages[1].id, "7");
    assert!(inherited.contains("upgrade-history:local/old:7"));
    assert!(!inherited.contains("7"));
}

#[test]
fn upgrade_history_prefers_all_successor_lines_for_an_overlapping_event() {
    let mut predecessor = buffer("local/old", "old", "channel");
    predecessor.matrix_room_id = Some("!old:example.org".to_owned());
    predecessor.matrix_replacement_room_id = Some("!new:example.org".to_owned());
    let mut old_header = line("old-header", 10);
    old_header.matrix_event_id = Some("$same:example.org".to_owned());
    let mut old_body = line("old-body", 10);
    old_body.matrix_event_id = Some("$same:example.org".to_owned());
    predecessor.messages.extend([old_header, old_body]);

    let mut successor = buffer("local/new", "new", "channel");
    successor.matrix_room_id = Some("!new:example.org".to_owned());
    successor.matrix_predecessor_room_id = Some("!old:example.org".to_owned());
    let mut new_header = line("new-header", 10);
    new_header.matrix_event_id = Some("$same:example.org".to_owned());
    let mut new_body = line("new-body", 10);
    new_body.matrix_event_id = Some("$same:example.org".to_owned());
    successor.messages.extend([new_header, new_body]);

    let (messages, inherited) =
        composed_upgrade_history(&vec![predecessor, successor], "local/new");
    assert_eq!(
        messages.iter().map(|line| line.id.as_str()).collect::<Vec<_>>(),
        vec!["new-header", "new-body"],
    );
    assert_eq!(inherited.len(), 0);
}

#[test]
fn saved_read_marker_restores_after_relay_line_ids_change() {
    let lines = VecDeque::from([
        line("new-id-1", 100),
        line("new-id-2", 200),
        line("new-id-3", 300),
    ]);
    let marker = SavedReadMarker {
        line_id: "old-id-2".to_owned(),
        timestamp_nanos: 200_000_000_000,
    };

    assert_eq!(marker.restore_line_id(&lines).as_deref(), Some("new-id-2"));
}

#[test]
fn saved_marker_before_loaded_page_places_divider_before_first_line() {
    let lines = VecDeque::from([line("301", 301), line("302", 302)]);
    let marker = SavedReadMarker {
        line_id: "1".to_owned(),
        timestamp_nanos: 1_000_000_000,
    };

    assert_eq!(
        marker.restore_visit_line_id(&lines).as_deref(),
        Some(BEFORE_FIRST_LOADED_LINE_ID),
    );
}

#[test]
fn visit_divider_uses_timeline_position_not_numeric_line_id_order() {
    let lines = VecDeque::from([
        line("10", 100),
        line("2", 200),
        line("0", 300),
    ]);

    let marker = visit_marker_location(&lines, "2");
    assert_eq!(marker, VisitMarkerLocation::At(1));
    assert!(!marker.is_before(1));
    assert!(marker.is_before(2));
    assert_eq!(
        visit_marker_location(&lines, BEFORE_FIRST_LOADED_LINE_ID),
        VisitMarkerLocation::BeforeFirst,
    );
}

fn event_line(id: &str, ts: i64, prefix: &str, message: &str, event_id: &str) -> Line {
    let mut line = Line::new(
        id.to_owned(),
        Timestamp { secs: ts, nanos: 0 },
        prefix.to_owned(),
        message.to_owned(),
        true,
        false,
    );
    line.matrix_event_id = Some(event_id.to_owned());
    line
}

fn plugin_buffer(id: &str, full_name: &str, plugin: &str, kind: &str) -> Buffer {
    Buffer {
        id: id.to_owned(),
        number: 1,
        name: full_name.to_owned(),
        full_name: full_name.to_owned(),
        plugin: plugin.to_owned(),
        kind: kind.to_owned(),
        server: plugin.to_owned(),
        own_nick: String::new(),
        messages: VecDeque::new(),
        nicks: Vec::new(),
        mention_candidates: Vec::new(),
        matrix_member_profiles: Vec::new(),
        activity: BufferActivity::Idle,
        unread_count: 0,
        last_read_id: None,
        last_markread_ts: None,
        topic: String::new(),
        modes: String::new(),
        hidden: false,
        muted: false,
        has_nicklist: true,
        matrix_room_id: None,
        matrix_predecessor_room_id: None,
        matrix_replacement_room_id: None,
        matrix_thread_root: None,
        matrix_upload_v1: false,
        matrix_avatar_mxc: None,
        visit_start_marker_id: None,
    }
}

fn matrix_buffer(id: &str, room_id: &str) -> Buffer {
    let mut buffer = plugin_buffer(id, id, "matrix", "channel");
    buffer.matrix_room_id = Some(room_id.to_owned());
    buffer
}

fn profile(user_id: &str, display_name: &str, nick: &str) -> MatrixMemberProfile {
    MatrixMemberProfile {
        user_id: user_id.to_owned(),
        display_name: display_name.to_owned(),
        nick: nick.to_owned(),
        membership: "join".to_owned(),
        role: "member".to_owned(),
        power_level: Some(0),
        avatar_mxc: None,
    }
}

#[test]
fn harness_matrix_upgrade_sidebar_selection_and_history_are_coherent() {
    let mut old = matrix_buffer("local/old", "!old:example.org");
    old.matrix_replacement_room_id = Some("!new:example.org".to_owned());
    old.messages.push_back(event_line("old-1", 10, "alice", "old room", "$old"));

    let mut new = matrix_buffer("local/new", "!new:example.org");
    new.matrix_predecessor_room_id = Some("!old:example.org".to_owned());
    new.messages.push_back(event_line("new-1", 20, "bob", "new room", "$new"));

    let buffers = vec![old.clone(), new.clone()];
    let replaced = replaced_matrix_room_ids(&buffers);

    assert!(!buffer_visible_in_sidebar(&old, true, &TextSet::new(), &replaced));
    assert!(buffer_visible_in_sidebar(&new, true, &TextSet::new(), &replaced));
    assert_eq!(replacement_buffer_id(&buffers, "local/old").as_deref(), Some("local/new"));
    assert_eq!(
        preferred_chat_buffer_id(&buffers, Some("local/matrix.matrix.!old:example.org")).as_deref(),
        Some("local/new"),
    );

    let (messages, inherited) = composed_upgrade_history(&buffers, "local/new");
    assert_eq!(
        messages.iter().map(|line| line.id.as_str()).collect::<Vec<_>>(),
        ["upgrade-history:local/old:old-1", "new-1"],
    );
    assert!(inherited.contains("upgrade-history:local/old:old-1"));
}

#[test]
fn harness_legacy_reply_header_renders_as_body_context_not_raw_row() {
    let mut header = event_line(
        "reply-header",
        10,
        "bob",
        "Reply to $original:example.org",
        "$reply:example.org",
    );
    header.matrix_reply = Some(MatrixReplyContext {
        event_id: Some("$original:example.org".to_owned()),
        sender: None,
        kind: MatrixReplyLineKind::Header,
    });
    let body = event_line("reply-body", 11, "bob", "actual reply body", "$reply:example.org");
    let lines = VecDeque::from([header.clone(), body.clone()]);
    let contexts = reply_contexts_by_event(&lines);

    assert!(redundant_room_reply_header(&lines, &header));
    let context = room_reply_context_for_body_line(&body, &contexts)
        .expect("body row should carry reply context");
    assert!(context.has_header);
    assert_eq!(context.target_event_id.as_deref(), Some("$original:example.org"));
    assert_eq!(context.sender.as_deref(), None);
}

#[test]
fn harness_orphaned_reply_and_empty_room_history_do_not_disappear_into_spinners() {
    let mut orphan = event_line(
        "reply-header",
        10,
        "bob",
        "Reply to $original:example.org",
        "$reply:example.org",
    );
    orphan.matrix_reply = Some(MatrixReplyContext {
        event_id: Some("$original:example.org".to_owned()),
        sender: None,
        kind: MatrixReplyLineKind::Header,
    });

    assert!(!redundant_room_reply_header(&VecDeque::from([orphan.clone()]), &orphan));
    assert!(!should_auto_request_history(0, false, false));
    assert!(!should_auto_request_history(0, true, true));
    assert!(should_auto_request_history(20, false, false));
}

#[test]
fn harness_media_threads_and_mentions_keep_their_render_metadata() {
    let mut media_line = event_line("media", 10, "alice", "image", "$image:example.org");
    media_line.matrix_media = Some(MatrixMedia {
        mxc_uri: "mxc://example.org/screenshot".to_owned(),
        name: "screenshot.png".to_owned(),
        kind: "image".to_owned(),
    });
    let blocks = group_thread_lines(&VecDeque::from([media_line]));

    assert_eq!(blocks.len(), 1);
    assert_eq!(
        blocks[0].content[0].media.as_ref().map(|media| media.mxc_uri.as_str()),
        Some("mxc://example.org/screenshot"),
    );

    let profiles = vec![profile("@strk:osgeo.org", "strk 🧭", "strk 🧭")];
    let card = message_sender_profile_card(
        "matrix/room",
        "&strk 🧭",
        "matrix",
        true,
        &profiles,
        &Vec::new(),
    )
    .expect("ranked Matrix sender should resolve exactly");
    assert_eq!(card.matrix_user_id.as_deref(), Some("@strk:osgeo.org"));

    let sections = ANSIParser::parse("\x1b[32mGrayShade\x1b[0m (@grayshade:dend.ro)");
    let compact = compact_matrix_prefix_sections("GrayShade (@grayshade:dend.ro)", &sections);
    assert_eq!(
        compact.iter().map(|section| section.text.as_str()).collect::<String>(),
        "GrayShade ·dend",
    );
}

#[test]
fn harness_url_preview_state_matches_current_shipped_behavior() {
    let sections = ANSIParser::parse(
        "see https://example.org/a and https://example.org/b",
    );
    let links = message_links(&sections)
        .into_iter()
        .map(|url| CheckedLink { url, is_safe: true })
        .collect::<Vec<_>>();
    let urls = preview_targets(&links, None, true, true).preview_urls;

    assert_eq!(urls, ["https://example.org/a", "https://example.org/b"]);
    assert!(urls.iter().all(|url| !is_image_url(url)));
}

#[test]
fn predecessors_are_listed_from_the_newest() {
    let mut oldest = matrix_buffer("local/oldest", "!oldest:example.org");
    oldest.matrix_replacement_room_id = Some("!middle:example.org".to_owned());
    let mut middle = matrix_buffer("local/middle", "!middle:example.org");
    middle.matrix_predecessor_room_id = Some("!oldest:example.org".to_owned());
    let mut latest = matrix_buffer("local/latest", "!latest:example.org");
    latest.matrix_predecessor_room_id = Some("!middle:example.org".to_owned());
    let buffers = vec![oldest, middle, latest];
    assert_eq!(
        predecessor_buffer_ids(&buffers, "local/latest"),
        vec!["local/middle", "local/oldest"]
    );
    assert!(predecessor_buffer_ids(&buffers, "local/oldest").is_empty());
}
