//! Lines as they come from a relay.
use vstd::prelude::*;
use crate::ansi::{
    escape_len, joined, params_len, sections, sections_keep_the_plain_text, stripped, stripped_from,
};
use crate::backend::BackendEvent;
use crate::json::{Json, JsonMember};
use crate::laws::given::{
    affirms, buffers_are_found_by_id, counts, lacks, nothing_is_read_where_nothing_is_said,
    reading_gives_what_is_affirmed, reading_gives_what_is_counted, reading_gives_what_is_said, says,
    stands_at,
};
use crate::lines::{body_of, is_historical, line_is_known, relay_line, with_line};
use crate::models::{new_line, BufferActivity, BufferView, LineView, WeeChatResponse};
use crate::relay_lines::{news_in, with_unread_line, LineNews};
use crate::seqs::{first_index, lemma_first_from};
use crate::state::{AppView, Clock, RelayEntry, MAX_STORED_LINES};
use crate::tags::tags;
use crate::text::decimal_int;
use crate::time::{before, Timestamp};

verus! {

// ---------------------------------------------------------------------------
// Plain texts
// ---------------------------------------------------------------------------

proof fn lemma_no_escapes(text: Seq<char>, at: int)
    requires
        0 <= at <= text.len(),
        forall|i: int| 0 <= i < text.len() ==> #[trigger] text[i] != '\x1b',
    ensures
        stripped_from(text, at) == text.skip(at),
    decreases text.len() - at,
{
    if at < text.len() {
        lemma_no_escapes(text, at + 1);
        assert(text[at] != '\x1b');
        assert(seq![text[at]] + text.skip(at + 1) =~= text.skip(at));
    } else {
        assert(text.skip(at) =~= Seq::empty());
    }
}

/// A text without escape characters is plain already.
pub proof fn plain_texts_stay(text: Seq<char>)
    requires
        forall|i: int| 0 <= i < text.len() ==> #[trigger] text[i] != '\x1b',
    ensures
        stripped(text) == text,
        joined(sections(text)) == text,
{
    lemma_no_escapes(text, 0);
    assert(text.skip(0) =~= text);
    sections_keep_the_plain_text(text);
}

proof fn lemma_params(text: Seq<char>, from: int, n: int)
    requires
        0 <= from,
        0 <= n,
        from + n < text.len(),
        forall|i: int| from <= i < from + n ==> '0' <= #[trigger] text[i] <= '9' || text[i] == ';',
        !('0' <= text[from + n] <= '9' || text[from + n] == ';'),
    ensures
        params_len(text, from) == n,
    decreases n,
{
    if n > 0 {
        assert('0' <= text[from] <= '9' || text[from] == ';');
        lemma_params(text, from + 1, n - 1);
    }
}

proof fn lemma_strip_skip(text: Seq<char>, at: int, k: int)
    requires
        0 <= k <= at <= text.len(),
    ensures
        stripped_from(text, at) == stripped_from(text.skip(k), at - k),
    decreases text.len() - at,
{
    let rest = text.skip(k);
    if at < text.len() {
        lemma_params_skip(text, at + 2, k);
        assert(escape_len(text, at) == escape_len(rest, at - k));
        if escape_len(text, at) > 0 {
            lemma_strip_skip(text, at + escape_len(text, at), k);
        } else {
            lemma_strip_skip(text, at + 1, k);
        }
    }
}

proof fn lemma_params_skip(text: Seq<char>, from: int, k: int)
    requires
        0 <= k <= from,
        k <= text.len(),
    ensures
        params_len(text, from) == params_len(text.skip(k), from - k),
    decreases text.len() - from,
{
    if from < text.len() {
        lemma_params_skip(text, from + 1, k);
    }
}

proof fn lemma_strip_head(head: Seq<char>, tail: Seq<char>, at: int)
    requires
        0 <= at <= head.len(),
        forall|i: int| 0 <= i < head.len() ==> #[trigger] head[i] != '\x1b',
    ensures
        stripped_from(head + tail, at) == head.skip(at) + stripped(tail),
    decreases head.len() - at,
{
    let text = head + tail;
    if at < head.len() {
        assert(text[at] == head[at]);
        lemma_strip_head(head, tail, at + 1);
        assert(seq![head[at]] + (head.skip(at + 1) + stripped(tail)) =~= head.skip(at) + stripped(
            tail,
        ));
    } else {
        lemma_strip_skip(text, at, at);
        assert(text.skip(at) =~= tail);
        assert(head.skip(at) + stripped(tail) =~= stripped(tail));
    }
}

/// An escape sequence leaves no trace: what stands before it and behind it
/// stays, and nothing of itself.
pub proof fn escape_sequences_vanish(
    head: Seq<char>,
    params: Seq<char>,
    letter: char,
    tail: Seq<char>,
)
    requires
        forall|i: int| 0 <= i < head.len() ==> #[trigger] head[i] != '\x1b',
        forall|i: int| 0 <= i < params.len() ==> '0' <= #[trigger] params[i] <= '9' || params[i] == ';',
        'a' <= letter <= 'z' || 'A' <= letter <= 'Z',
    ensures
        stripped(head + (seq!['\x1b', '['] + params + seq![letter] + tail)) == head + stripped(tail),
{
    let escape = seq!['\x1b', '['] + params + seq![letter] + tail;
    lemma_strip_head(head, escape, 0);
    assert(head.skip(0) =~= head);
    let n = params.len() as int;
    assert forall|i: int| 2 <= i < 2 + n implies '0' <= #[trigger] escape[i] <= '9' || escape[i]
        == ';' by {
        assert(escape[i] == params[i - 2]);
    }
    assert(escape[2 + n] == letter);
    lemma_params(escape, 2, n);
    assert(escape_len(escape, 0) == 3 + n);
    lemma_strip_skip(escape, 3 + n, 3 + n);
    assert(escape.skip(3 + n) =~= tail);
}

// ---------------------------------------------------------------------------
// What a line holds
// ---------------------------------------------------------------------------

/// A line shows the sender and the message that it was made with, each in its
/// own place, and keeps its id, its time, and whether it is shown and urgent.
pub proof fn lines_hold_what_they_are_made_of(
    id: Seq<char>,
    time: Timestamp,
    prefix: Seq<char>,
    message: Seq<char>,
    displayed: bool,
    highlight: bool,
)
    ensures
        ({
            let line = new_line(id, time, prefix, message, displayed, highlight);
            &&& line.id == id && line.timestamp == time
            &&& line.prefix == prefix && line.message == message
            &&& line.displayed == displayed && line.highlight == highlight
            &&& line.plain_prefix == stripped(prefix)
            &&& line.plain_message == stripped(message)
            &&& line.plain_prefix_lower == crate::text::lowercase(line.plain_prefix)
            &&& line.plain_message_lower == crate::text::lowercase(line.plain_message)
            &&& joined(line.parsed_prefix) == stripped(prefix)
            &&& joined(line.parsed_message) == stripped(message)
            &&& line.matrix_event_id is None && line.matrix_reply is None && line.matrix_media is None
        }),
{
    sections_keep_the_plain_text(prefix);
    sections_keep_the_plain_text(message);
}

/// A relay line shows the sender and the message that the entry names, and
/// nothing where it names none.
pub proof fn relay_lines_show_sender_and_message(
    obj: Seq<JsonMember>,
    id: Seq<char>,
    date: Timestamp,
    displayed: bool,
    highlight: bool,
    p: Seq<char>,
    m: Seq<char>,
)
    requires
        says(obj, "prefix"@, p) || lacks(obj, "prefix"@) && p.len() == 0,
        says(obj, "message"@, m) || lacks(obj, "message"@) && m.len() == 0,
    ensures
        ({
            let line = relay_line(obj, id, date, displayed, highlight);
            &&& line.id == id && line.timestamp == date
            &&& line.prefix == p && line.message == m
            &&& line.plain_prefix == stripped(p) && line.plain_message == stripped(m)
            &&& line.displayed == displayed && line.highlight == highlight
        }),
{
    reading(obj, "prefix"@, p);
    reading(obj, "message"@, m);
    lines_hold_what_they_are_made_of(id, date, p, m, displayed, highlight);
}

proof fn reading(obj: Seq<JsonMember>, key: Seq<char>, text: Seq<char>)
    requires
        says(obj, key, text) || lacks(obj, key) && text.len() == 0,
    ensures
        crate::json::member_text_or(obj, key, Seq::empty()) == text,
{
    if says(obj, key, text) {
        reading_gives_what_is_said(obj, key, text, Seq::empty());
    } else {
        nothing_is_read_where_nothing_is_said(obj, key);
        assert(text =~= Seq::empty());
    }
}

/// What an entry tells of a line: whether it is urgent, how loud it is, and
/// whether the user sent it.
pub proof fn news_say_what_the_entry_says(obj: Seq<JsonMember>)
    ensures
        affirms(obj, "highlight"@, true) ==> news_in(obj).highlight,
        affirms(obj, "highlight"@, false) || lacks(obj, "highlight"@) ==> !news_in(obj).highlight,
        forall|n: int| #[trigger]
            counts(obj, "notify_level"@, n) ==> news_in(obj).notify_level == n,
        lacks(obj, "notify_level"@) ==> news_in(obj).notify_level == 0,
        news_in(obj).is_self_msg == tags(obj).contains("self_msg"@),
        news_in(obj).is_notify_none == tags(obj).contains("notify_none"@),
        news_in(obj).is_join_part == (tags(obj).contains("irc_join"@) || tags(obj).contains(
            "irc_part"@,
        ) || tags(obj).contains("irc_quit"@)),
{
    if affirms(obj, "highlight"@, true) {
        reading_gives_what_is_affirmed(obj, "highlight"@, true, false);
    }
    if affirms(obj, "highlight"@, false) {
        reading_gives_what_is_affirmed(obj, "highlight"@, false, false);
    }
    if lacks(obj, "highlight"@) {
        nothing_is_read_where_nothing_is_said(obj, "highlight"@);
    }
    if lacks(obj, "notify_level"@) {
        nothing_is_read_where_nothing_is_said(obj, "notify_level"@);
    }
    assert forall|n: int| #[trigger] counts(obj, "notify_level"@, n) implies news_in(
        obj,
    ).notify_level == n by {
        reading_gives_what_is_counted(obj, "notify_level"@, n, 0);
    }
}

// ---------------------------------------------------------------------------
// How urgent a line makes a buffer
// ---------------------------------------------------------------------------

/// Whether a line counts in a buffer that is not on view.
pub open spec fn is_counted(b: BufferView, line: LineView, news: LineNews) -> bool {
    line.displayed && !b.muted && !news.is_self_msg && !news.is_notify_none
}

/// A highlight makes a buffer as urgent as can be; a message at least as urgent
/// as a message; anything else that counts wakes an idle buffer. Nothing becomes
/// more urgent than the line is.
pub proof fn lines_make_buffers_urgent(b: BufferView, line: LineView, news: LineNews)
    ensures
        ({
            let after = with_unread_line(b, line, news);
            &&& is_counted(b, line, news) && (news.highlight || news.notify_level == 3)
                ==> after.activity == BufferActivity::Highlight
            &&& is_counted(b, line, news) && !news.highlight && news.notify_level == 2
                ==> after.activity == (if b.activity == BufferActivity::Highlight {
                BufferActivity::Highlight
            } else {
                BufferActivity::Message
            })
            &&& is_counted(b, line, news) && !news.highlight && news.notify_level != 2
                && news.notify_level != 3 ==> after.activity == (if b.activity
                == BufferActivity::Idle {
                BufferActivity::Metadata
            } else {
                b.activity
            })
            &&& !is_counted(b, line, news) ==> after.activity == b.activity
        }),
{
}

/// A line that counts makes one more unread line, but for comings and goings.
pub proof fn counted_lines_are_unread(b: BufferView, line: LineView, news: LineNews)
    requires
        b.unread_count < u32::MAX,
    ensures
        with_unread_line(b, line, news).unread_count == b.unread_count + (if is_counted(
            b,
            line,
            news,
        ) && !news.is_join_part {
            1int
        } else {
            0int
        }),
{
}

/// A new line is in its buffer, among all lines that were there.
pub proof fn new_lines_are_there(lines: Seq<LineView>, line: LineView)
    ensures
        with_line(lines, line).contains(line),
        with_line(lines, line).len() == lines.len() + 1,
        forall|i: int| 0 <= i < lines.len() ==> with_line(lines, line).contains(#[trigger] lines[i]),
{
    let p = |l: LineView| before(line.timestamp, l.timestamp);
    lemma_first_from(lines, p, 0);
    let all = with_line(lines, line);
    let at = if is_historical(lines, line) && first_index(lines, p) is Some {
        first_index(lines, p)->0
    } else {
        lines.len() as int
    };
    assert(all[at] == line);
    assert forall|i: int| 0 <= i < lines.len() implies all.contains(#[trigger] lines[i]) by {
        if i < at {
            assert(all[i] == lines[i]);
        } else {
            assert(all[i + 1] == lines[i]);
        }
    }
}

// ---------------------------------------------------------------------------
// The event of a new line
// ---------------------------------------------------------------------------

/// An event that tells of one new line of a buffer.
pub open spec fn tells_of_line(
    resp: WeeChatResponse,
    obj: Seq<JsonMember>,
    n: i64,
) -> bool {
    &&& resp.request_id is None
    &&& resp.event_name is Some && resp.event_name->0@ == "buffer_line_added"@
    &&& resp.buffer_id == Some(n)
    &&& resp.body is Some && resp.body->0 is Array
    &&& (resp.body->0->Array_0)@.len() == 1
    &&& (resp.body->0->Array_0)@[0] is Object
    &&& ((resp.body->0->Array_0)@[0]->Object_0)@ == obj
    &&& !tags(obj).contains("matrix_history_page"@)
}

/// A line that a relay tells of is then in the buffer that it tells of, with
/// the sender, the message and the id that it names.
pub proof fn told_lines_are_shown(
    state: AppView,
    conn: Seq<char>,
    resp: WeeChatResponse,
    entries: Vec<RelayEntry>,
    clock: Clock,
    obj: Seq<JsonMember>,
    n: i64,
    k: int,
    p: Seq<char>,
    m: Seq<char>,
    line_id: int,
)
    requires
        tells_of_line(resp, obj, n),
        entries@.len() == 1,
        stands_at(state.buffers, conn + "/"@ + decimal_int(n as int), k),
        says(obj, "prefix"@, p),
        says(obj, "message"@, m),
        counts(obj, "id"@, line_id),
        !line_is_known(state.buffers[k].messages, decimal_int(line_id)),
        state.buffers[k].messages.len() < MAX_STORED_LINES,
    ensures
        ({
            let after = state.handling(conn, BackendEvent::WeeChat(resp, entries), clock);
            let lines = after.buffers[k].messages;
            &&& after.buffers.len() == state.buffers.len()
            &&& lines.len() == state.buffers[k].messages.len() + 1
            &&& exists|j: int|
                0 <= j < lines.len() && (#[trigger] lines[j]).id == decimal_int(line_id)
                    && lines[j].prefix == p && lines[j].message == m && lines[j].plain_prefix
                    == stripped(p) && lines[j].plain_message == stripped(m)
        }),
{
    let id = conn + "/"@ + decimal_int(n as int);
    buffers_are_found_by_id(state.buffers, id, k);
    lemma_told(state, conn, resp, entries, clock, obj, n);
    let date = crate::lines::entry_date(body_of(resp)[0], entries@[0]);
    let displayed = crate::json::member_bool_or(obj, "displayed"@, true);
    let highlight = crate::json::member_bool_or(obj, "highlight"@, false);
    reading_gives_what_is_counted(obj, "id"@, line_id, 0);
    let line = relay_line(obj, decimal_int(line_id), date, displayed, highlight);
    relay_lines_show_sender_and_message(
        obj,
        decimal_int(line_id),
        date,
        displayed,
        highlight,
        p,
        m,
    );
    let before_lines = state.buffers[k].messages;
    new_lines_are_there(before_lines, line);
    let after = state.line_taken(id, line, news_in(obj), clock.ticks);
    assert(after.buffers[k].messages == with_line(before_lines, line));
    let j = choose|j: int| 0 <= j < with_line(before_lines, line).len() && with_line(before_lines, line)[j] == line;
    assert(after.buffers[k].messages[j].prefix == p);
}

/// One such event is one line taken in.
proof fn lemma_told(
    state: AppView,
    conn: Seq<char>,
    resp: WeeChatResponse,
    entries: Vec<RelayEntry>,
    clock: Clock,
    obj: Seq<JsonMember>,
    n: i64,
)
    requires
        tells_of_line(resp, obj, n),
        entries@.len() == 1,
    ensures
        ({
            let after = state.handling(conn, BackendEvent::WeeChat(resp, entries), clock);
            let date = crate::lines::entry_date(body_of(resp)[0], entries@[0]);
            after == state.line_taken(
                conn + "/"@ + decimal_int(n as int),
                relay_line(
                    obj,
                    crate::relay_lines::new_line_id(obj, clock.now),
                    date,
                    crate::json::member_bool_or(obj, "displayed"@, true),
                    crate::json::member_bool_or(obj, "highlight"@, false),
                ),
                news_in(obj),
                clock.ticks,
            )
        }),
{
    let body = body_of(resp);
    assert(body.len() == 1);
    assert(body[0] == Json::Object(resp.body->0->Array_0@[0]->Object_0));
    let event = resp.event_name->0@;
    assert(state.relay_event(conn, event, resp, entries@, clock) == state.lines_added(
        conn,
        resp,
        entries@,
        clock.now,
        clock.ticks,
    ));
    let first = state.line_entries(conn, resp, entries@, clock.now, clock.ticks, 0);
    assert(first == state);
    assert(state.line_entries(conn, resp, entries@, clock.now, clock.ticks, 1)
        == first.line_entry(
        conn,
        resp.buffer_id,
        body[0],
        crate::lines::entry_date(body[0], entries@[0]),
        clock.now,
        clock.ticks,
    ));
}

/// A highlight that a relay tells of, in a buffer that is neither on view nor
/// muted, makes the buffer a highlight, counts as unread and is announced to the
/// user, unless they heard of the buffer just before.
pub proof fn told_highlights_are_seen(
    state: AppView,
    conn: Seq<char>,
    resp: WeeChatResponse,
    entries: Vec<RelayEntry>,
    clock: Clock,
    obj: Seq<JsonMember>,
    n: i64,
    k: int,
    p: Seq<char>,
    m: Seq<char>,
    line_id: int,
)
    requires
        tells_of_line(resp, obj, n),
        entries@.len() == 1,
        stands_at(state.buffers, conn + "/"@ + decimal_int(n as int), k),
        says(obj, "prefix"@, p),
        says(obj, "message"@, m),
        counts(obj, "id"@, line_id),
        !line_is_known(state.buffers[k].messages, decimal_int(line_id)),
        affirms(obj, "highlight"@, true) || counts(obj, "notify_level"@, 3),
        affirms(obj, "displayed"@, true) || lacks(obj, "displayed"@),
        !tags(obj).contains("self_msg"@),
        !tags(obj).contains("notify_none"@),
        !tags(obj).contains("irc_join"@),
        !tags(obj).contains("irc_part"@),
        !tags(obj).contains("irc_quit"@),
        state.selected_buffer_id != Some(conn + "/"@ + decimal_int(n as int)),
        !state.buffers[k].muted,
        state.buffers[k].unread_count < u32::MAX,
        !state.last_notif_at.contains_key(conn + "/"@ + decimal_int(n as int)),
    ensures
        ({
            let after = state.handling(conn, BackendEvent::WeeChat(resp, entries), clock);
            &&& after.buffers[k].activity == BufferActivity::Highlight
            &&& after.buffers[k].unread_count == state.buffers[k].unread_count + 1
            &&& after.request_attention
            &&& after.outbox.len() == state.outbox.len() + 1
            &&& after.outbox.last() is Notify
            &&& after.outbox.last()->body == stripped(m)
        }),
{
    let id = conn + "/"@ + decimal_int(n as int);
    buffers_are_found_by_id(state.buffers, id, k);
    lemma_told(state, conn, resp, entries, clock, obj, n);
    news_say_what_the_entry_says(obj);
    reading_gives_what_is_counted(obj, "id"@, line_id, 0);
    if affirms(obj, "displayed"@, true) {
        reading_gives_what_is_affirmed(obj, "displayed"@, true, true);
    } else {
        nothing_is_read_where_nothing_is_said(obj, "displayed"@);
    }
    let date = crate::lines::entry_date(body_of(resp)[0], entries@[0]);
    let displayed = crate::json::member_bool_or(obj, "displayed"@, true);
    let highlight = crate::json::member_bool_or(obj, "highlight"@, false);
    let line = relay_line(obj, decimal_int(line_id), date, displayed, highlight);
    relay_lines_show_sender_and_message(
        obj,
        decimal_int(line_id),
        date,
        displayed,
        highlight,
        p,
        m,
    );
    lines_make_buffers_urgent(state.buffers[k], line, news_in(obj));
    counted_lines_are_unread(state.buffers[k], line, news_in(obj));
}

} // verus!
