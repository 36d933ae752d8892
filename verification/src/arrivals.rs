//! What new lines leave of the buffers that they come for.
use vstd::prelude::*;
use crate::json::{json_object, member_bool_or, member_text_or, Json};
use crate::lines::{
    body_of, distinct_lines, entry_date, line_is_known, new_line_keeps_ids_distinct,
    new_line_keeps_the_order, relay_line,
};
use crate::models::{BufferView, LineView, WeeChatResponse};
use crate::order::is_chronological;
use crate::relay_lines::{entry_buffer, full_id, new_line_id, news_in, LineNews};
use crate::seqs::lemma_last_index;
use crate::state::{buffer_place, AppView, RelayEntry, MAX_STORED_LINES};
use crate::tags::tags;
use crate::time::Timestamp;

verus! {

/// Whether lines are as a buffer keeps them: in the order of time, none twice,
/// and no more than the limit.
pub open spec fn sound_lines(lines: Seq<LineView>) -> bool {
    is_chronological(lines) && distinct_lines(lines) && lines.len() <= MAX_STORED_LINES
}

/// Whether a buffer has become no less urgent.
pub open spec fn no_less_urgent(before: BufferView, after: BufferView) -> bool {
    after.unread_count >= before.unread_count && after.activity.level() >= before.activity.level()
}

/// Whether a buffer counts as unread what it counted before.
pub open spec fn as_urgent(before: BufferView, after: BufferView) -> bool {
    after.unread_count == before.unread_count && after.activity == before.activity
}

/// A line that is there already changes nothing.
pub proof fn known_lines_change_nothing(
    state: AppView,
    id: Seq<char>,
    line: LineView,
    news: LineNews,
    ticks: u64,
)
    requires
        buffer_place(state.buffers, id) is Some,
        line_is_known(state.buffers[buffer_place(state.buffers, id)->0].messages, line.id),
    ensures
        state.line_taken(id, line, news, ticks) == state,
{
}

/// A line that is hidden, that the user sent, or that is marked as not worth a
/// notice does not count as unread anywhere.
pub proof fn quiet_lines_are_not_counted(
    state: AppView,
    id: Seq<char>,
    line: LineView,
    news: LineNews,
    ticks: u64,
    k: int,
)
    requires
        !line.displayed || news.is_self_msg || news.is_notify_none,
        0 <= k < state.buffers.len(),
    ensures
        ({
            let after = state.line_taken(id, line, news, ticks);
            &&& after.buffers.len() == state.buffers.len()
            &&& as_urgent(state.buffers[k], after.buffers[k])
            &&& after.outbox == state.outbox
        }),
{
    lemma_last_index(state.buffers, |b: BufferView| b.id == id);
}

/// What new lines leave of a buffer.
spec fn takes_lines_soundly(state: AppView, after: AppView, k: int) -> bool {
    let b = state.buffers[k];
    let c = after.buffers[k];
    &&& after.buffers.len() == state.buffers.len()
    &&& after.selected_buffer_id == state.selected_buffer_id
    &&& c.id == b.id && c.muted == b.muted
    &&& sound_lines(b.messages) ==> sound_lines(c.messages)
    &&& no_less_urgent(b, c)
    &&& b.muted || state.selected_buffer_id == Some(b.id) ==> as_urgent(b, c)
}

proof fn lemma_line_taken(
    state: AppView,
    id: Seq<char>,
    line: LineView,
    news: LineNews,
    ticks: u64,
    k: int,
)
    requires
        0 <= k < state.buffers.len(),
    ensures
        takes_lines_soundly(state, state.line_taken(id, line, news, ticks), k),
{
    lemma_last_index(state.buffers, |b: BufferView| b.id == id);
    let b = state.buffers[k];
    if sound_lines(b.messages) && !line_is_known(b.messages, line.id) {
        new_line_keeps_the_order(b.messages, line);
        new_line_keeps_ids_distinct(b.messages, line);
    }
}

proof fn lemma_page_ended(state: AppView, id: Seq<char>, message: Seq<char>)
    ensures
        state.page_ended(id, message).buffers == state.buffers,
        state.page_ended(id, message).selected_buffer_id == state.selected_buffer_id,
{
}

proof fn lemma_line_entry(
    state: AppView,
    prefix: Seq<char>,
    resp_buffer: Option<i64>,
    value: Json,
    date: Timestamp,
    now: Timestamp,
    ticks: u64,
    k: int,
)
    requires
        0 <= k < state.buffers.len(),
    ensures
        takes_lines_soundly(
            state,
            state.line_entry(prefix, resp_buffer, value, date, now, ticks),
            k,
        ),
{
    match json_object(value) {
        Some(obj) => match entry_buffer(resp_buffer, obj) {
            Some(raw_id) => {
                let id = full_id(prefix, raw_id);
                if tags(obj).contains("matrix_history_page"@) {
                    lemma_page_ended(
                        state,
                        id,
                        member_text_or(obj, "message"@, Seq::empty()),
                    );
                } else {
                    let line = relay_line(
                        obj,
                        new_line_id(obj, now),
                        date,
                        member_bool_or(obj, "displayed"@, true),
                        member_bool_or(obj, "highlight"@, false),
                    );
                    lemma_line_taken(state, id, line, news_in(obj), ticks, k);
                }
            },
            None => {},
        },
        None => {},
    }
}

proof fn lemma_line_entries(
    state: AppView,
    prefix: Seq<char>,
    resp: WeeChatResponse,
    entries: Seq<RelayEntry>,
    now: Timestamp,
    ticks: u64,
    n: nat,
    k: int,
)
    requires
        0 <= k < state.buffers.len(),
    ensures
        takes_lines_soundly(
            state,
            state.line_entries(prefix, resp, entries, now, ticks, n),
            k,
        ),
    decreases n,
{
    if n == 0 || n > body_of(resp).len() || n > entries.len() {
    } else {
        lemma_line_entries(state, prefix, resp, entries, now, ticks, (n - 1) as nat, k);
        lemma_line_entry(
            state.line_entries(prefix, resp, entries, now, ticks, (n - 1) as nat),
            prefix,
            resp.buffer_id,
            body_of(resp)[n - 1],
            entry_date(body_of(resp)[n - 1], entries[n - 1]),
            now,
            ticks,
            k,
        );
    }
}

/// New lines leave every buffer in the order of time, without a line twice and
/// within its limit, where it was so before. They never make a buffer less
/// urgent, and one that is muted or on view stays as urgent as it was.
pub proof fn new_lines_keep_buffers_sound(
    state: AppView,
    prefix: Seq<char>,
    resp: WeeChatResponse,
    entries: Seq<RelayEntry>,
    now: Timestamp,
    ticks: u64,
    k: int,
)
    requires
        0 <= k < state.buffers.len(),
    ensures
        ({
            let b = state.buffers[k];
            let after = state.lines_added(prefix, resp, entries, now, ticks).buffers;
            &&& after.len() == state.buffers.len()
            &&& after[k].id == b.id
            &&& sound_lines(b.messages) ==> sound_lines(after[k].messages)
            &&& no_less_urgent(b, after[k])
            &&& b.muted || state.selected_buffer_id == Some(b.id) ==> as_urgent(b, after[k])
        }),
{
    lemma_line_entries(state, prefix, resp, entries, now, ticks, body_of(resp).len(), k);
}

} // verus!
