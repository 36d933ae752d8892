use std::collections::VecDeque;

use base64::engine::general_purpose::URL_SAFE_NO_PAD;
use base64::Engine;
use weechatrs::media::is_image_url;
use weechatrs::models::{
    Buffer, BufferActivity, Line, MatrixMedia, MatrixReplyContext, MatrixReplyLineKind,
};
use weechatrs::panels::{redaction_target_for, reply_target_for, thread_redaction_target};
use weechatrs::sidebar::buffer_has_sidebar_avatar;
use weechatrs::threads::{
    group_thread_lines, live_thread_buffer_id, reply_contexts_by_event,
    redundant_room_reply_header, room_reply_context_for_body_line, short_matrix_event_id,
    stable_thread_snapshot,
};
use weechatrs::time::Timestamp;
use weechatrs::uploads::{
    buffer_supports_matrix_upload, clipboard_upload_target, direct_download_url,
    matrix_attachment_echo_matches, matrix_attachment_upload, matrix_file_refusal,
    matrix_redact_command, matrix_upload_id, mime_for, prepare_matrix_attachment, share_result,
    share_time, share_url, status_refusal, PreparedFileShare, MATRIX_UPLOAD_MAX_BYTES, MATRIX_UPLOAD_MAX_ENCODED_CHUNK,
    MATRIX_UPLOAD_RAW_CHUNK,
};

fn line(id: &str, prefix: &str, message: &str, event_id: &str) -> Line {
    let mut line = Line::new(
        id.to_owned(),
        Timestamp { secs: 1_750_000_000, nanos: 0 },
        prefix.to_owned(),
        message.to_owned(),
        true,
        false,
    );
    line.matrix_event_id = Some(event_id.to_owned());
    line
}

#[test]
fn groups_multiline_matrix_event_into_one_thread_message() {
    let lines = VecDeque::from([
        line("1", "alice", "root", "$root:example.org"),
        line("2", "bot", "first line", "$reply:example.org"),
        line("3", "bot", "", "$reply:example.org"),
        line("4", "bot", "last line", "$reply:example.org"),
    ]);
    let blocks = group_thread_lines(&lines);
    assert_eq!(blocks.len(), 2);
    assert_eq!(
        blocks[1]
            .content
            .iter()
            .map(|content| content.message.as_str())
            .collect::<Vec<_>>(),
        ["first line", "", "last line"]
    );
}

#[test]
fn separates_reply_context_from_thread_message_body() {
    let mut header = line(
        "1",
        "bob",
        "Reply to Alice:",
        "$reply:example.org",
    );
    header.matrix_reply = Some(MatrixReplyContext {
        event_id: Some("$original:example.org".to_owned()),
        sender: Some("Alice".to_owned()),
        kind: MatrixReplyLineKind::Header,
    });
    let mut quote = line(
        "2",
        "bob",
        "> original message",
        "$reply:example.org",
    );
    quote.matrix_reply = Some(MatrixReplyContext {
        event_id: Some("$original:example.org".to_owned()),
        sender: Some("Alice".to_owned()),
        kind: MatrixReplyLineKind::Quote,
    });
    let body = line("3", "bob", "new message", "$reply:example.org");

    let blocks =
        group_thread_lines(&VecDeque::from([header, quote, body]));

    assert_eq!(blocks.len(), 1);
    assert_eq!(
        blocks[0]
            .content
            .iter()
            .map(|content| content.message.as_str())
            .collect::<Vec<_>>(),
        ["new message"]
    );
    let reply = blocks[0].reply.as_ref().expect("reply context");
    assert_eq!(
        reply.target_event_id.as_deref(),
        Some("$original:example.org")
    );
    assert_eq!(reply.sender.as_deref(), Some("Alice"));
    assert_eq!(reply.quotes, ["original message"]);
}

#[test]
fn combines_room_reply_header_and_quote_without_repeating_current_sender() {
    let mut header = line(
        "1",
        "lbart[m]",
        "Reply to Regina Obe:",
        "$reply:example.org",
    );
    header.matrix_reply = Some(MatrixReplyContext {
        event_id: Some("$original:example.org".to_owned()),
        sender: Some("Regina Obe".to_owned()),
        kind: MatrixReplyLineKind::Header,
    });
    let mut quote = line(
        "2",
        "lbart[m]",
        "> lbart[m]:  oslandia still manages this",
        "$reply:example.org",
    );
    quote.matrix_reply = Some(MatrixReplyContext {
        event_id: Some("$original:example.org".to_owned()),
        sender: Some("Regina Obe".to_owned()),
        kind: MatrixReplyLineKind::Quote,
    });

    let contexts = reply_contexts_by_event(&VecDeque::from([header, quote]));
    let context = contexts
        .get("$reply:example.org")
        .expect("one combined reply context");
    assert!(context.has_header);
    assert_eq!(
        context.target_event_id.as_deref(),
        Some("$original:example.org")
    );
    assert_eq!(context.sender.as_deref(), Some("Regina Obe"));
    assert_eq!(context.quotes, ["oslandia still manages this"]);
}

#[test]
fn keeps_orphaned_reply_quote_visible_at_a_history_boundary() {
    let mut quote = line(
        "2",
        "lbart[m]",
        "> older message at the pagination boundary",
        "$reply:example.org",
    );
    quote.matrix_reply = Some(MatrixReplyContext {
        event_id: Some("$original:example.org".to_owned()),
        sender: Some("Regina Obe".to_owned()),
        kind: MatrixReplyLineKind::Quote,
    });

    let contexts = reply_contexts_by_event(&VecDeque::from([quote]));
    let context = contexts
        .get("$reply:example.org")
        .expect("orphaned quote context");
    assert!(!context.has_header);
    assert_eq!(context.quotes, ["older message at the pagination boundary"]);
}

#[test]
fn room_reply_header_attaches_to_following_body_line() {
    let mut header = line(
        "1",
        "bob",
        "Reply to $original:example.org",
        "$reply:example.org",
    );
    header.matrix_reply = Some(MatrixReplyContext {
        event_id: Some("$original:example.org".to_owned()),
        sender: None,
        kind: MatrixReplyLineKind::Header,
    });
    let body = line("2", "bob", "new message", "$reply:example.org");
    let lines = VecDeque::from([header.clone(), body.clone()]);

    assert!(redundant_room_reply_header(&lines, &header));
    let contexts = reply_contexts_by_event(&lines);
    let reply = room_reply_context_for_body_line(&body, &contexts)
        .expect("attached reply context");
    assert_eq!(
        reply.target_event_id.as_deref(),
        Some("$original:example.org")
    );
    assert_eq!(reply.sender.as_deref(), None);
    assert!(reply.has_header);
}

#[test]
fn orphaned_room_reply_header_stays_visible_without_body_line() {
    let mut header = line(
        "1",
        "bob",
        "Reply to $original:example.org",
        "$reply:example.org",
    );
    header.matrix_reply = Some(MatrixReplyContext {
        event_id: Some("$original:example.org".to_owned()),
        sender: None,
        kind: MatrixReplyLineKind::Header,
    });
    let lines = VecDeque::from([header.clone()]);

    assert!(!redundant_room_reply_header(&lines, &header));
}

#[test]
fn grouping_preserves_matrix_media_with_its_message() {
    let mut media_line = line("1", "alice", "image", "$image:example.org");
    media_line.matrix_media = Some(MatrixMedia {
        mxc_uri: "mxc://example.org/screenshot".to_owned(),
        name: "screenshot.png".to_owned(),
        kind: "image".to_owned(),
    });

    let blocks = group_thread_lines(&VecDeque::from([media_line]));

    let media = blocks[0].content[0]
        .media
        .as_ref()
        .expect("grouped Matrix media");
    assert_eq!(media.mxc_uri, "mxc://example.org/screenshot");
    assert_eq!(media.name, "screenshot.png");
    assert_eq!(media.kind, "image");
}

#[test]
fn clipboard_target_never_falls_back_from_thread_to_room() {
    assert_eq!(
        clipboard_upload_target(true, Some("thread"), Some("room")),
        Some("thread".to_owned())
    );
    assert_eq!(clipboard_upload_target(true, None, Some("room")), None);
    assert_eq!(
        clipboard_upload_target(false, None, Some("room")),
        Some("room".to_owned())
    );
}

#[test]
fn captured_clipboard_target_survives_room_change() {
    let upload_target = clipboard_upload_target(true, Some("thread"), Some("room-a"));
    let current_room_after_upload = "room-b";

    assert_eq!(current_room_after_upload, "room-b");
    assert_eq!(upload_target, Some("thread".to_owned()));
}

#[test]
fn matrix_clipboard_upload_keeps_chunk_order_and_round_trips_bytes() {
    let bytes = (0..(MATRIX_UPLOAD_RAW_CHUNK + 17))
        .map(|n| (n % 251) as u8)
        .collect::<Vec<_>>();
    let commands = matrix_attachment_upload("cliptest".to_owned(), "sample.bin", "application/octet-stream", &bytes).unwrap();
    assert!(commands[0].starts_with("/matrix-upload begin cliptest "));
    assert!(commands[0].contains(" application/octet-stream "));
    assert!(!commands[0].contains("http"));
    let mut reconstructed = Vec::new();
    for (sequence, command) in commands[1..commands.len() - 1].iter().enumerate() {
        let fields = command.split_ascii_whitespace().collect::<Vec<_>>();
        assert_eq!(fields[0..3], ["/matrix-upload", "chunk", "cliptest"]);
        assert_eq!(fields[3], sequence.to_string());
        assert!(fields[4].len() <= MATRIX_UPLOAD_MAX_ENCODED_CHUNK);
        reconstructed.extend(URL_SAFE_NO_PAD.decode(fields[4]).unwrap());
    }
    assert_eq!(reconstructed, bytes);
    assert_eq!(commands.last().unwrap(), "/matrix-upload commit cliptest");
}

#[test]
fn matrix_clipboard_upload_rejects_oversized_payload_before_queuing_chunks() {
    let bytes = vec![0; MATRIX_UPLOAD_MAX_BYTES + 1];
    assert!(matrix_attachment_upload("cliptest".to_owned(), "huge.bin", "application/octet-stream", &bytes).is_err());
}

#[test]
fn matrix_upload_requires_an_explicit_backend_capability() {
    let mut buffer = thread_buffer("thread");
    assert!(buffer_supports_matrix_upload(Some(&buffer)));

    buffer.matrix_upload_v1 = false;
    assert!(!buffer_supports_matrix_upload(Some(&buffer)));

    buffer.matrix_upload_v1 = true;
    buffer.plugin = "irc".to_owned();
    assert!(!buffer_supports_matrix_upload(Some(&buffer)));
    assert!(!buffer_supports_matrix_upload(None));
}

#[test]
fn matrix_upload_stays_pending_until_exact_own_media_echo() {
    let media = MatrixMedia {
        mxc_uri: "mxc://example.org/upload".to_owned(),
        name: "clipboard.png".to_owned(),
        kind: "image".to_owned(),
    };
    assert!(matrix_attachment_echo_matches(
        Some("matrix/thread"),
        Some("clipboard.png"),
        "matrix/thread",
        Some(&media),
        true,
    ));
    assert!(!matrix_attachment_echo_matches(
        Some("matrix/thread"),
        Some("clipboard.png"),
        "matrix/room",
        Some(&media),
        true,
    ));
    assert!(!matrix_attachment_echo_matches(
        Some("matrix/thread"),
        Some("clipboard.png"),
        "matrix/thread",
        Some(&media),
        false,
    ));
}

#[test]
fn delete_message_uses_only_an_exact_matrix_event_id() {
    assert_eq!(
        matrix_redact_command("$event:example.org").unwrap(),
        "/redact $event:example.org",
    );
    assert!(matrix_redact_command("latest").is_err());
    assert!(matrix_redact_command("$event:example.org reason").is_err());
}

#[test]
fn transient_empty_refresh_keeps_visible_thread_messages() {
    let mut previous = thread_buffer("thread");
    previous
        .messages
        .push_back(line("1", "alice", "existing message", "$event:example.org"));
    let current = thread_buffer("thread");

    let snapshot = stable_thread_snapshot(Some(&current), Some(&previous))
        .expect("stable thread snapshot");

    assert_eq!(snapshot.messages.len(), 1);
    assert_eq!(snapshot.messages[0].message, "existing message");
    assert_eq!(
        stable_thread_snapshot(None, Some(&previous))
            .expect("missing refresh keeps previous snapshot")
            .messages
            .len(),
        1
    );
}

#[test]
fn open_thread_remaps_after_backend_recreates_buffer_ids() {
    let old = thread_buffer("local/1785554655975327");
    let mut recreated = thread_buffer("local/1785557588310747");
    recreated.messages.push_back(line(
        "1",
        "alice",
        "restored message",
        "$event:example.org",
    ));

    let remapped = live_thread_buffer_id(
        &vec![recreated],
        Some("local/1785554655975327"),
        Some(&old),
    );
    assert_eq!(
        remapped.as_deref(),
        Some("local/1785557588310747"),
    );
    assert_eq!(
        clipboard_upload_target(true, remapped.as_deref(), Some("local/room"))
            .as_deref(),
        Some("local/1785557588310747"),
    );
}

fn thread_buffer(id: &str) -> Buffer {
    Buffer {
        id: id.to_owned(),
        number: 1,
        name: "thread".to_owned(),
        full_name: "matrix.thread".to_owned(),
        plugin: "matrix".to_owned(),
        kind: "channel".to_owned(),
        server: "matrix".to_owned(),
        own_nick: "Darafei Praliaskouski".to_owned(),
        messages: VecDeque::new(),
        nicks: Vec::new(),
        mention_candidates: Vec::new(),
        matrix_member_profiles: Vec::new(),
        activity: BufferActivity::Idle,
        unread_count: 0,
        last_read_id: None,
        last_markread_ts: None,
        topic: String::new(),
        modes: String::new(),
        hidden: true,
        muted: false,
        has_nicklist: false,
        matrix_room_id: Some("!room:example.org".to_owned()),
        matrix_predecessor_room_id: None,
        matrix_replacement_room_id: None,
        matrix_thread_root: Some("$root:example.org".to_owned()),
        matrix_upload_v1: true,
        matrix_avatar_mxc: None,
        visit_start_marker_id: None,
    }
}

#[test]
fn sidebar_avatars_apply_only_to_matrix_chat_rows() {
    let mut matrix_room = thread_buffer("matrix-room");
    matrix_room.kind = "channel".to_owned();
    matrix_room.matrix_thread_root = None;
    assert!(buffer_has_sidebar_avatar(&matrix_room));

    matrix_room.kind = "server".to_owned();
    assert!(!buffer_has_sidebar_avatar(&matrix_room));

    matrix_room.kind = "channel".to_owned();
    matrix_room.plugin = "irc".to_owned();
    assert!(!buffer_has_sidebar_avatar(&matrix_room));
}

#[test]
fn upload_link_uses_direct_preview_and_keeps_filename_fragment() {
    let raw = direct_download_url("abc", "screen shot.png").unwrap();
    let url = url::Url::parse(&raw).unwrap();
    assert_eq!(url.query(), Some("h=abc&p=1"));
    assert_eq!(url.fragment(), Some("screen%20shot.png"));
    assert!(is_image_url(&raw));
}

#[test]
fn common_image_mime_types_are_preserved() {
    assert_eq!(mime_for("photo.PNG"), "image/png");
    assert_eq!(mime_for("photo.jpeg"), "image/jpeg");
    assert_eq!(mime_for("archive.unknown"), "application/octet-stream");
}

#[test]
fn matrix_file_share_prepares_native_bytes_without_external_url() {
    let bytes = b"%PDF-1.7\nnative Matrix attachment";
    let filename = format!(
        "weechatrs-matrix-attachment-{}.pdf",
        matrix_upload_id(1_750_000_000_000_000_000, 3)
    );
    assert_eq!(matrix_file_refusal(true, bytes.len() as u64), None);

    let prepared = prepare_matrix_attachment(
        "matrix/thread".to_owned(),
        Some(filename),
        bytes.to_vec(),
        bytes.len() as u64,
    )
    .unwrap();

    match prepared {
        PreparedFileShare::MatrixAttachment {
            buffer_id,
            filename,
            mime,
            bytes: actual,
        } => {
            assert_eq!(buffer_id, "matrix/thread");
            assert!(filename.ends_with(".pdf"));
            assert_eq!(mime, "application/pdf");
            assert_eq!(actual, bytes);
        }
        PreparedFileShare::ExternalLink { .. } => {
            panic!("Matrix file was routed to the external file host")
        }
    }
}

#[test]
fn files_that_cannot_be_attached_are_refused() {
    assert_eq!(
        matrix_file_refusal(false, 10).as_deref(),
        Some("Matrix attachment must be a regular file")
    );
    assert!(matrix_file_refusal(true, 0).is_some());
    assert!(matrix_file_refusal(true, MATRIX_UPLOAD_MAX_BYTES as u64).is_none());
    assert!(matrix_file_refusal(true, MATRIX_UPLOAD_MAX_BYTES as u64 + 1).is_some());
    assert!(prepare_matrix_attachment("b".to_owned(), None, vec![1], 1).is_err());
    assert!(
        prepare_matrix_attachment("b".to_owned(), Some("x".to_owned()), vec![1], 2).is_err()
    );
}

#[test]
fn upload_answers_become_links() {
    assert!(share_url("", "a.png").is_err());
    let link = share_url("code123\nrest", "a.png").expect("a link");
    assert!(link.contains("h=code123"));
    assert!(link.ends_with("#a.png"));
    assert_eq!(share_time("week"), "week");
    assert_eq!(share_time("nonsense"), share_time("day"));
}

#[test]
fn answers_and_deletions_name_the_event() {
    let first = line("1", "alice", "caption", "$image:example.org");
    let mut second = line("2", "alice", "", "$image:example.org");
    second.matrix_media = Some(MatrixMedia {
        mxc_uri: "mxc://example.org/x".to_owned(),
        name: "x.png".to_owned(),
        kind: "image".to_owned(),
    });
    let mut plain = line("3", "alice", "plain", "$none");
    plain.matrix_event_id = None;
    let messages = VecDeque::from([first.clone(), second, plain.clone()]);

    let reply = reply_target_for(&first, "matrix/room", false, false).expect("answerable");
    assert_eq!(reply.matrix_event_id, "$image:example.org");
    assert_eq!(reply.sender, "alice");
    assert_eq!(reply.message, "caption");
    assert!(reply_target_for(&first, "matrix/room", true, false).is_none());
    assert!(reply_target_for(&first, "matrix/room", false, true).is_none());
    assert!(reply_target_for(&plain, "matrix/room", false, false).is_none());

    let target = redaction_target_for(&messages, &first, "matrix/room", false, false)
        .expect("deletable");
    assert_eq!(target.message, "x.png");
    assert!(redaction_target_for(&messages, &plain, "matrix/room", false, false).is_none());

    let blocks = group_thread_lines(&messages);
    let target = thread_redaction_target(&blocks[0], "matrix/thread").expect("deletable");
    assert_eq!(target.buffer_id, "matrix/thread");
    assert_eq!(target.message, "x.png");
}

#[test]
fn long_event_ids_are_shortened() {
    assert_eq!(short_matrix_event_id("$short"), "$short");
    assert_eq!(
        short_matrix_event_id("$0123456789012345678901"),
        "$01234567890123456..."
    );
}

#[test]
fn refused_uploads_have_no_link() {
    assert_eq!(status_refusal(200), None);
    assert_eq!(status_refusal(299), None);
    assert_eq!(
        status_refusal(199).as_deref(),
        Some("Server returned 199 <unknown status code>")
    );
    assert_eq!(
        share_result(404, "code123", "a.png"),
        Err("Server returned 404 Not Found".to_owned())
    );
    assert_eq!(
        share_result(300, "code123", "a.png"),
        Err("Server returned 300 Multiple Choices".to_owned())
    );
    assert_eq!(
        share_result(200, " Error 7 \nrest", "a.png"),
        Err("Server error: Error 7".to_owned())
    );
    assert_eq!(
        share_result(200, "code123\nrest", "a.png").as_deref(),
        Ok("https://files.interdo.me/f.php?h=code123&p=1#a.png")
    );
    assert_eq!(share_time("24h"), "day");
}

#[test]
fn long_answers_are_read_by_their_first_line() {
    let mut body = "code123\n".to_owned();
    body.push_str(&"x".repeat(17_000_000));
    assert_eq!(
        share_result(200, &body, "a.png").as_deref(),
        Ok("https://files.interdo.me/f.php?h=code123&p=1#a.png")
    );
}
