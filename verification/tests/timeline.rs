use std::collections::VecDeque;

use vstd::hash_set::StringHashSet;
use weechatrs::ansi::{strip_ansi, ANSIParser};
use weechatrs::content::{reply_card_hint, reply_card_title};
use weechatrs::dates::{choose_date, parse_date, parse_i64, resolve_date, LineDate};
use weechatrs::fonts::{
    family_from_file, font_order, profile_font_order, scan_system_fonts, unicode_fallback_path,
    FontFace,
};
use weechatrs::json::Json;
use weechatrs::lines::{append_page, insert_by_time, prepend_page};
use weechatrs::models::{
    contains_word, contains_word_case_insensitive, Buffer, BufferActivity, Line,
    MatrixReplyContext, MatrixReplyLineKind,
};
use weechatrs::text::{
    is_whitespace, parse_u64, str_le, str_replace, str_split, str_split_once, str_trim, u64_text,
};
use weechatrs::threads::reply_contexts_by_event;
use weechatrs::time::Timestamp;
use weechatrs::timeline::{
    reply_card_of, thread_button_label, thread_button_lines, thread_on_line, thread_summaries,
    LineDay, Timeline, TimelineItem,
};

fn at(secs: i64) -> Timestamp {
    Timestamp { secs, nanos: 0 }
}

fn line(id: &str, secs: i64, message: &str) -> Line {
    Line::new(
        id.to_owned(),
        at(secs),
        "bob".to_owned(),
        message.to_owned(),
        true,
        false,
    )
}

fn event(id: &str, message: &str, event_id: &str) -> Line {
    let mut line = line(id, 100, message);
    line.matrix_event_id = Some(event_id.to_owned());
    line
}

fn reply(id: &str, message: &str, event_id: &str, kind: MatrixReplyLineKind) -> Line {
    let mut line = event(id, message, event_id);
    line.matrix_reply = Some(MatrixReplyContext {
        event_id: Some("$original:example.org".to_owned()),
        sender: Some("Alice".to_owned()),
        kind,
    });
    line
}

fn days(dates: &[&str]) -> Vec<LineDay> {
    dates
        .iter()
        .map(|date| LineDay {
            date: date.to_string(),
            year: date[..4].to_owned(),
        })
        .collect()
}

fn rows(items: &[TimelineItem]) -> Vec<usize> {
    items
        .iter()
        .filter_map(|item| match item {
            TimelineItem::Row { line, .. } => Some(*line),
            _ => None,
        })
        .collect()
}

#[test]
fn days_and_new_messages_are_marked() {
    let messages = VecDeque::from([
        line("1", 100, "a"),
        line("2", 200, "b"),
        line("3", 300, "c"),
    ]);
    let mut inherited = StringHashSet::new();
    inherited.insert("1".to_owned());
    let days = days(&["2024-12-31", "2025-01-01", "2025-01-01"]);
    let aliases = vec!["c".to_owned()];
    let anchor = ("2".to_owned(), 1);
    let view = Timeline {
        messages: &messages,
        days: &days,
        inherited: &inherited,
        show_filtered: false,
        search: "",
        anchor: Some(&anchor),
        visit_marker: Some("2"),
        aliases: &aliases,
    };
    assert_eq!(
        view.lay_out(),
        vec![
            TimelineItem::ArchivedYear { line: 0 },
            TimelineItem::Day { line: 0 },
            TimelineItem::Row {
                line: 0,
                continues_event: false,
                is_inherited: true,
                is_own_mention: false,
            },
            TimelineItem::Anchor,
            TimelineItem::Day { line: 1 },
            TimelineItem::Row {
                line: 1,
                continues_event: false,
                is_inherited: false,
                is_own_mention: false,
            },
            TimelineItem::NewMessages,
            TimelineItem::Row {
                line: 2,
                continues_event: false,
                is_inherited: false,
                is_own_mention: true,
            },
        ]
    );
}

#[test]
fn replies_stand_with_their_bodies() {
    let messages = VecDeque::from([
        reply("1", "Reply to Alice:", "$r", MatrixReplyLineKind::Header),
        reply("2", "> quoted words", "$r", MatrixReplyLineKind::Quote),
        event("3", "body", "$r"),
        event("4", "more", "$r"),
        reply("5", "> orphan", "$o", MatrixReplyLineKind::Quote),
    ]);
    let days = days(&["2025-01-01"; 5]);
    let inherited = StringHashSet::new();
    let aliases = Vec::new();
    let view = |search: &'static str| {
        Timeline {
            messages: &messages,
            days: &days,
            inherited: &inherited,
            show_filtered: false,
            search,
            anchor: None,
            visit_marker: None,
            aliases: &aliases,
        }
        .lay_out()
    };
    let items = view("");
    assert_eq!(rows(&items), vec![2, 3, 4]);
    assert!(items.contains(&TimelineItem::Row {
        line: 3,
        continues_event: true,
        is_inherited: false,
        is_own_mention: false,
    }));
    // The search looks into what a line answers.
    assert_eq!(rows(&view("QUOTED")), vec![2, 3]);
    assert_eq!(rows(&view("orphan")), vec![4]);
    assert!(rows(&view("nothing")).is_empty());

    let contexts = reply_contexts_by_event(&messages);
    let card = reply_card_of(&messages[2], &contexts, false).expect("a card above the body");
    assert_eq!(card.quotes, ["quoted words"]);
    assert_eq!(reply_card_title(&card), "Alice");
    assert_eq!(reply_card_hint(&card), None);
    assert!(reply_card_of(&messages[3], &contexts, true).is_none());
    assert!(reply_card_of(&messages[4], &contexts, false).is_some());
}

#[test]
fn hidden_lines_and_download_reports_have_no_rows() {
    let mut filtered = line("1", 100, "joined");
    filtered.displayed = false;
    let messages = VecDeque::from([
        filtered,
        line(
            "2",
            200,
            "matrix: Downloading media to /home/user/.cache/weechatrs/matrix-media/key",
        ),
        line("3", 300, "hello"),
    ]);
    let days = days(&["2025-01-01"; 3]);
    let inherited = StringHashSet::new();
    let aliases = Vec::new();
    let shown = |show_filtered: bool| {
        rows(
            &Timeline {
                messages: &messages,
                days: &days,
                inherited: &inherited,
                show_filtered,
                search: "",
                anchor: None,
                visit_marker: None,
                aliases: &aliases,
            }
            .lay_out(),
        )
    };
    assert_eq!(shown(false), vec![2]);
    assert_eq!(shown(true), vec![0, 2]);
}

fn thread(id: &str, root: &str, lines: usize) -> Buffer {
    let mut messages = VecDeque::new();
    for i in 0..lines {
        messages.push_back(event(&i.to_string(), "x", &format!("$e{i}")));
    }
    Buffer {
        id: id.to_owned(),
        number: 1,
        name: id.to_owned(),
        full_name: id.to_owned(),
        plugin: "matrix".to_owned(),
        kind: "channel".to_owned(),
        server: "matrix".to_owned(),
        own_nick: String::new(),
        messages,
        nicks: Vec::new(),
        mention_candidates: Vec::new(),
        matrix_member_profiles: Vec::new(),
        activity: BufferActivity::Message,
        unread_count: 0,
        last_read_id: None,
        last_markread_ts: None,
        topic: String::new(),
        modes: String::new(),
        hidden: false,
        muted: false,
        has_nicklist: false,
        matrix_room_id: Some("!room:example.org".to_owned()),
        matrix_predecessor_room_id: None,
        matrix_replacement_room_id: None,
        matrix_thread_root: Some(root.to_owned()),
        matrix_upload_v1: false,
        matrix_avatar_mxc: None,
        visit_start_marker_id: None,
    }
}

#[test]
fn the_last_line_of_an_event_bears_its_thread() {
    let buffers = vec![thread("t1", "$root", 3), thread("t2", "$other", 1)];
    let threads = thread_summaries(&buffers, Some("!room:example.org"));
    assert_eq!(threads.len(), 2);
    assert_eq!(threads.get("$root").map(|thread| thread.replies), Some(2));
    assert_eq!(thread_summaries(&buffers, None).len(), 0);
    assert_eq!(thread_summaries(&buffers, Some("!else:example.org")).len(), 0);
    let messages = VecDeque::from([
        event("1", "first", "$root"),
        event("2", "second", "$root"),
        event("3", "plain", "$plain"),
    ]);
    let buttons = thread_button_lines(&messages, &threads);
    assert_eq!(buttons.items(), vec!["2"]);
    assert!(thread_on_line(&messages[0], &buttons, &threads).is_none());
    assert_eq!(
        thread_on_line(&messages[1], &buttons, &threads).map(|thread| thread.buffer_id.as_str()),
        Some("t1")
    );
    assert_eq!(thread_button_label(0), "💬 Open thread");
    assert_eq!(thread_button_label(1), "💬 1 reply");
    assert_eq!(thread_button_label(12), "💬 12 replies");
}

#[test]
fn lines_find_their_place_in_time() {
    let mut lines = VecDeque::from([line("1", 100, "a"), line("3", 300, "c")]);
    assert!(insert_by_time(&mut lines, line("2", 200, "b")));
    assert!(!insert_by_time(&mut lines, line("4", 300, "d")));
    let ids: Vec<&str> = lines.iter().map(|line| line.id.as_str()).collect();
    assert_eq!(ids, vec!["1", "2", "3", "4"]);
    let added = prepend_page(&mut lines, vec![line("0", 50, "z"), line("1", 100, "a")]);
    assert_eq!(added, 1);
    append_page(&mut lines, vec![line("5", 500, "e")]);
    let ids: Vec<&str> = lines.iter().map(|line| line.id.as_str()).collect();
    assert_eq!(ids, vec!["0", "1", "2", "3", "4", "5"]);
}

#[test]
fn dates_are_zoned_or_local_or_missing() {
    let read = |text: &str| parse_date(Some(&Json::Text(text.to_owned())));
    assert_eq!(read("1970-01-01T00:01:40Z"), LineDate::At(at(100)));
    assert_eq!(read("1970-01-01T02:01:40+02:00"), LineDate::At(at(100)));
    assert_eq!(read("1750000000"), LineDate::At(at(1_750_000_000)));
    assert_eq!(read("-5"), LineDate::At(at(-5)));
    assert_eq!(read("1970-01-01 00:01:40"), LineDate::LocalClock(at(100)));
    assert_eq!(read("yesterday"), LineDate::Arrival);
    assert_eq!(parse_date(None), LineDate::Arrival);
    assert_eq!(choose_date(None, Some(at(1)), Some(at(2))), LineDate::At(at(1)));
    assert_eq!(parse_i64("-9223372036854775808"), Some(i64::MIN));
    assert_eq!(parse_i64("9223372036854775808"), None);
    assert_eq!(parse_i64("-+5"), None);
}

#[test]
fn escape_sequences_are_read_and_removed() {
    assert_eq!(strip_ansi("\x1b[1;32mgreen\x1b[0m plain"), "green plain");
    assert_eq!(strip_ansi("no \x1b[1;"), "no \x1b[1;");
    let sections = ANSIParser::parse("\x1b[1mbold\x1b[0m see https://example.org/x.");
    assert_eq!(sections[0].text, "bold");
    assert!(sections[0].style.bold);
    assert!(sections.iter().any(|section| section.url.is_some()));
    let joined: String = sections.iter().map(|section| section.text.as_str()).collect();
    assert_eq!(joined, "bold see https://example.org/x.");
}

#[test]
fn words_are_whole() {
    assert!(contains_word("hi ada!", "ada"));
    assert!(!contains_word("hi adam", "ada"));
    assert!(contains_word_case_insensitive("HI ADA", "ada"));
    assert!(!contains_word("anything", ""));
}

#[test]
fn texts_behave_as_those_of_the_standard_library() {
    for value in 0..=0x10FFFFu32 {
        if let Some(c) = char::from_u32(value) {
            assert_eq!(is_whitespace(c), c.is_whitespace(), "{value:#x}");
        }
    }
    let samples = ["", "a", "ab", "б", "a/b/c", " x y ", "//", "aXbXc"];
    for text in samples {
        assert_eq!(str_trim(text), text.trim());
        assert_eq!(
            str_split(text, '/'),
            text.split('/').map(str::to_owned).collect::<Vec<_>>()
        );
        assert_eq!(
            str_split_once(text, "/"),
            text.split_once('/').map(|(a, b)| (a.to_owned(), b.to_owned()))
        );
        assert_eq!(str_replace(text, "X", "--"), text.replace('X', "--"));
        for other in samples {
            assert_eq!(str_le(text, other), text <= other);
        }
    }
    for number in [0, 7, 10, 99, 100, u64::MAX] {
        assert_eq!(u64_text(number), number.to_string());
        assert_eq!(parse_u64(&number.to_string(), u64::MAX), Some(number));
    }
    assert_eq!(parse_u64("+7", 10), Some(7));
    assert_eq!(parse_u64("11", 10), None);
    assert_eq!(parse_u64("", 10), None);
}

fn face(families: &[&str], path: Option<&str>) -> FontFace {
    FontFace {
        families: families.iter().map(|family| family.to_string()).collect(),
        path: path.map(str::to_owned),
    }
}

#[test]
fn fonts_are_listed_once_and_sorted() {
    let faces = vec![
        face(&["Noto Sans"], Some("/n.ttf")),
        face(&["arial", "Helvetica"], Some("/a.ttf")),
        face(&["Noto Sans"], Some("/n2.ttf")),
        face(&["Builtin"], None),
        face(&["Builtin"], Some("/b.ttf")),
        face(&[], Some("/x.ttf")),
    ];
    let fonts = scan_system_fonts(&faces);
    let listed: Vec<(&str, &str)> = fonts
        .iter()
        .map(|font| (font.family.as_str(), font.path.as_str()))
        .collect();
    assert_eq!(listed, vec![("arial", "/a.ttf"), ("Noto Sans", "/n.ttf")]);
    assert_eq!(
        unicode_fallback_path(false, false, &faces).as_deref(),
        Some("/n.ttf")
    );
    assert_eq!(
        unicode_fallback_path(false, true, &faces).as_deref(),
        Some("/usr/share/fonts/truetype/dejavu/DejaVuSans.ttf")
    );
    assert_eq!(unicode_fallback_path(false, false, &Vec::new()), None);
    assert_eq!(family_from_file(Some(&faces)).as_deref(), Some("Noto Sans"));
    assert_eq!(family_from_file(None), None);
    let bundled = vec!["Ubuntu".to_owned()];
    assert_eq!(
        font_order(&bundled, true, true),
        vec!["user_font", "Ubuntu", "unicode_fallback"]
    );
    assert_eq!(
        profile_font_order(&bundled, true, true),
        vec!["unicode_fallback", "user_font", "Ubuntu"]
    );
    assert_eq!(profile_font_order(&bundled, false, false), vec!["Ubuntu"]);
}

#[test]
fn dates_that_cannot_be_read_are_those_of_arrival() {
    assert_eq!(resolve_date(LineDate::At(at(1)), Some(at(2)), at(3)), at(1));
    assert_eq!(resolve_date(LineDate::LocalClock(at(1)), Some(at(2)), at(3)), at(2));
    assert_eq!(resolve_date(LineDate::LocalClock(at(1)), None, at(3)), at(3));
    assert_eq!(resolve_date(LineDate::Arrival, Some(at(2)), at(3)), at(3));
}
