//! What no event can exceed.
use vstd::prelude::*;
use crate::backend::{with_added_line, with_page_taken, BackendEvent};
use crate::events::{changed, BufferChange, RouteView};
use crate::json::{Json, JsonMember};
use crate::lines::{body_of, snapshot_is_chronological, snapshot_of, with_line, without_oldest};
use crate::models::{BufferView, LineView, WeeChatResponse};
use crate::order::{
    natural_order, natural_order_groups_servers, saved_order_never_tears_groups, with_saved_order,
};
use crate::relay_buffers::{by_connection, without_connection};
use crate::relay_lines::{with_changed_line, with_read_line, with_unread_line, LineNews};
use crate::seqs::{lemma_first_from, lemma_last_index, lemma_sorted_by_permutation, views};
use crate::state::{buffer_place, AppView, Clock, RelayEntry, MAX_STORED_LINES};
use crate::time::{before, Timestamp};

verus! {

/// No buffer holds more lines than the limit.
pub open spec fn within_limit(buffers: Seq<BufferView>) -> bool {
    forall|i: int| 0 <= i < buffers.len() ==> (#[trigger] buffers[i]).messages.len()
        <= MAX_STORED_LINES
}

proof fn lemma_update(buffers: Seq<BufferView>, i: int, b: BufferView)
    requires
        within_limit(buffers),
        b.messages.len() <= MAX_STORED_LINES,
    ensures
        0 <= i < buffers.len() ==> within_limit(buffers.update(i, b)),
{
}

proof fn lemma_changing(state: AppView, id: Seq<char>, f: spec_fn(BufferView) -> BufferView)
    requires
        within_limit(state.buffers),
        forall|b: BufferView|
            b.messages.len() <= MAX_STORED_LINES ==> (#[trigger] f(b)).messages.len()
                <= MAX_STORED_LINES,
    ensures
        within_limit(state.changing(id, f).buffers),
{
    let p = |b: BufferView| b.id == id;
    lemma_last_index(state.buffers, p);
    match buffer_place(state.buffers, id) {
        Some(i) => {
            assert(state.buffers[i].messages.len() <= MAX_STORED_LINES);
            lemma_update(state.buffers, i, f(state.buffers[i]));
        },
        None => {},
    }
}

proof fn lemma_filter(buffers: Seq<BufferView>, p: spec_fn(BufferView) -> bool)
    requires
        within_limit(buffers),
    ensures
        within_limit(buffers.filter(p)),
{
    let kept = buffers.filter(p);
    assert forall|i: int| 0 <= i < kept.len() implies (#[trigger] kept[i]).messages.len()
        <= MAX_STORED_LINES by {
        buffers.lemma_filter_pred(p, i);
        assert(kept.contains(kept[i]));
        buffers.lemma_filter_contains_rev(p, kept[i]);
    }
}

proof fn lemma_reordered(before: Seq<BufferView>, after: Seq<BufferView>)
    requires
        within_limit(before),
        after.to_multiset() == before.to_multiset(),
    ensures
        within_limit(after),
{
    broadcast use vstd::seq_lib::group_to_multiset_ensures;

    assert forall|i: int| 0 <= i < after.len() implies (#[trigger] after[i]).messages.len()
        <= MAX_STORED_LINES by {
        assert(after.contains(after[i]));
        assert(after.to_multiset().count(after[i]) > 0);
        assert(before.to_multiset().count(after[i]) > 0);
        assert(before.contains(after[i]));
    }
}

proof fn lemma_selecting(state: AppView, id: Seq<char>, ticks: u64)
    requires
        within_limit(state.buffers),
    ensures
        within_limit(state.selecting(id, ticks).buffers),
{
    let p = |b: BufferView| b.id == id;
    lemma_last_index(state.buffers, p);
}

proof fn lemma_with_line(lines: Seq<LineView>, line: LineView)
    requires
        lines.len() <= MAX_STORED_LINES,
    ensures
        without_oldest(with_line(lines, line)).len() <= MAX_STORED_LINES,
{
    lemma_first_from(lines, |l: LineView| before(line.timestamp, l.timestamp), 0);
}

proof fn lemma_with_changed_line(
    b: BufferView,
    obj: Seq<JsonMember>,
    line_id: Seq<char>,
    date: Timestamp,
)
    requires
        b.messages.len() <= MAX_STORED_LINES,
    ensures
        with_changed_line(b, obj, line_id, date).messages.len() <= MAX_STORED_LINES,
{
    lemma_first_from(b.messages, |l: LineView| l.id == line_id, 0);
}

proof fn lemma_line_taken(state: AppView, id: Seq<char>, line: LineView, news: LineNews, ticks: u64)
    requires
        within_limit(state.buffers),
    ensures
        within_limit(state.line_taken(id, line, news, ticks).buffers),
{
    lemma_last_index(state.buffers, |b: BufferView| b.id == id);
    match buffer_place(state.buffers, id) {
        Some(i) => {
            let b = state.buffers[i];
            assert(b.messages.len() <= MAX_STORED_LINES);
            lemma_with_line(b.messages, line);
            lemma_update(state.buffers, i, with_read_line(b, line));
            lemma_update(state.buffers, i, with_unread_line(b, line, news));
        },
        None => {},
    }
}

proof fn lemma_line_entries(
    state: AppView,
    prefix: Seq<char>,
    resp: WeeChatResponse,
    entries: Seq<RelayEntry>,
    clock: Clock,
    n: nat,
)
    requires
        within_limit(state.buffers),
    ensures
        within_limit(
            state.line_entries(prefix, resp, entries, clock.now, clock.ticks, n).buffers,
        ),
    decreases n,
{
    if n == 0 || n > body_of(resp).len() || n > entries.len() {
    } else {
        lemma_line_entries(state, prefix, resp, entries, clock, (n - 1) as nat);
        let before = state.line_entries(
            prefix,
            resp,
            entries,
            clock.now,
            clock.ticks,
            (n - 1) as nat,
        );
        assert forall|id: Seq<char>, line: LineView, news: LineNews| within_limit(
            (#[trigger] before.line_taken(id, line, news, clock.ticks)).buffers,
        ) by {
            lemma_line_taken(before, id, line, news, clock.ticks);
        }
    }
}

proof fn lemma_change_entries(
    state: AppView,
    prefix: Seq<char>,
    resp: WeeChatResponse,
    entries: Seq<RelayEntry>,
    n: nat,
)
    requires
        within_limit(state.buffers),
    ensures
        within_limit(state.change_entries(prefix, resp, entries, n).buffers),
    decreases n,
{
    if n == 0 || n > body_of(resp).len() || n > entries.len() {
    } else {
        lemma_change_entries(state, prefix, resp, entries, (n - 1) as nat);
        let before = state.change_entries(prefix, resp, entries, (n - 1) as nat);
        let value = body_of(resp)[n - 1];
        let date = crate::lines::entry_date(value, entries[n - 1]);
        match crate::json::json_object(value) {
            Some(obj) => match (
                crate::relay_lines::entry_buffer(resp.buffer_id, obj),
                crate::json::member_id(obj, "id"@),
            ) {
                (Some(raw_id), Some(line_id)) => {
                    assert forall|b: BufferView|
                        b.messages.len() <= MAX_STORED_LINES implies (
                    #[trigger] with_changed_line(b, obj, line_id, date)).messages.len()
                        <= MAX_STORED_LINES by {
                        lemma_with_changed_line(b, obj, line_id, date);
                    }
                    lemma_changing(
                        before,
                        crate::relay_lines::full_id(prefix, raw_id),
                        |b: BufferView|
                            with_changed_line(b, obj, line_id, date),
                    );
                },
                _ => {},
            },
            None => {},
        }
    }
}

proof fn lemma_hot_entries(state: AppView, prefix: Seq<char>, resp: WeeChatResponse, n: nat)
    requires
        within_limit(state.buffers),
    ensures
        within_limit(state.hot_entries(prefix, resp, n).buffers),
    decreases n,
{
    if n == 0 || n > body_of(resp).len() {
    } else {
        lemma_hot_entries(state, prefix, resp, (n - 1) as nat);
        let before = state.hot_entries(prefix, resp, (n - 1) as nat);
        match crate::json::json_object(body_of(resp)[n - 1]) {
            Some(obj) => match crate::json::member_id(obj, "buffer_id"@) {
                Some(raw_id) => {
                    lemma_changing(
                        before,
                        crate::relay_lines::full_id(prefix, raw_id),
                        |b: BufferView| crate::relay_counts::with_hot_entry(b, obj),
                    );
                },
                None => {},
            },
            None => {},
        }
    }
}

proof fn lemma_info_entries(
    state: AppView,
    prefix: Seq<char>,
    id: Seq<char>,
    body: Seq<Json>,
    entries: Seq<RelayEntry>,
    n: nat,
)
    requires
        within_limit(state.buffers),
    ensures
        within_limit(state.info_entries(prefix, id, body, entries, n).buffers),
    decreases n,
{
    if n == 0 || n > body.len() || n > entries.len() {
    } else {
        lemma_info_entries(state, prefix, id, body, entries, (n - 1) as nat);
        let before = state.info_entries(prefix, id, body, entries, (n - 1) as nat);
        match crate::json::json_object(body[n - 1]) {
            Some(obj) => {
                lemma_changing(
                    before,
                    id,
                    |b: BufferView|
                        crate::relay_details::with_info(b, prefix, obj, entries[n - 1]),
                );
            },
            None => {},
        }
    }
}

proof fn lemma_list_entries(
    state: AppView,
    prefix: Seq<char>,
    body: Seq<Json>,
    entries: Seq<RelayEntry>,
    n: nat,
)
    requires
        within_limit(state.buffers),
    ensures
        within_limit(state.list_entries(prefix, body, entries, n)),
    decreases n,
{
    if n == 0 || n > body.len() || n > entries.len() {
    } else {
        lemma_list_entries(state, prefix, body, entries, (n - 1) as nat);
        match crate::json::json_object(body[n - 1]) {
            Some(obj) => match crate::json::member_id(obj, "id"@) {
                Some(raw_id) => {
                    let id = crate::relay_lines::full_id(prefix, raw_id);
                    lemma_last_index(state.buffers, |b: BufferView| b.id == id);
                },
                None => {},
            },
            None => {},
        }
    }
}

proof fn lemma_list_replaced(state: AppView, prefix: Seq<char>, list: Seq<BufferView>)
    requires
        within_limit(state.buffers),
        within_limit(list),
    ensures
        within_limit(
            state.list_replaced(prefix, list).order_tried().connections_together().buffers,
        ),
{
    lemma_filter(
        state.buffers,
        |b: BufferView| !crate::relay_buffers::belongs_to(b.id, prefix),
    );
    natural_order_groups_servers(list);
    lemma_reordered(list, natural_order(list));
    let replaced = state.list_replaced(prefix, list);
    assert(within_limit(replaced.buffers));
    saved_order_never_tears_groups(replaced.buffers, replaced.buffer_order);
    lemma_reordered(
        replaced.buffers,
        with_saved_order(replaced.buffers, replaced.buffer_order),
    );
    let tried = replaced.order_tried();
    lemma_sorted_by_permutation(
        tried.buffers,
        |a: BufferView, b: BufferView|
            crate::text::text_le(
                crate::order::connection_of(a.id),
                crate::order::connection_of(b.id),
            ),
    );
    lemma_reordered(tried.buffers, by_connection(tried.buffers));
}

proof fn lemma_list_taken(
    state: AppView,
    prefix: Seq<char>,
    list: Seq<BufferView>,
    hms: Seq<char>,
    ticks: u64,
)
    requires
        within_limit(state.buffers),
        within_limit(list),
    ensures
        within_limit(state.list_taken(prefix, list, hms, ticks).buffers),
{
    let logged = state.logged(prefix, hms, crate::relay_buffers::list_report(list));
    assert(logged.buffers == state.buffers);
    lemma_list_replaced(logged, prefix, list);
    let together = logged.list_replaced(prefix, list).order_tried().connections_together();
    let unselected = together.thread_unselected();
    assert(unselected.buffers == together.buffers);
    let idle = AppView { pending_buffer_switch: None, ..unselected };
    assert forall|id: Seq<char>| within_limit((#[trigger] idle.selecting(id, ticks)).buffers) by {
        lemma_selecting(idle, id, ticks);
    }
    let switched = unselected.listed_switch(ticks);
    assert(within_limit(switched.buffers));
    assert forall|id: Seq<char>| within_limit((#[trigger] switched.selecting(id, ticks)).buffers) by {
        lemma_selecting(switched, id, ticks);
    }
    let chosen = switched.chat_chosen(prefix, ticks);
    assert(within_limit(chosen.buffers));
    assert(chosen.hotlist_asked(prefix, hms).buffers == chosen.buffers);
}

proof fn lemma_snapshot(
    state: AppView,
    prefix: Seq<char>,
    raw_id: Seq<char>,
    requested: Option<usize>,
    lines: Seq<LineView>,
    hms: Seq<char>,
)
    requires
        within_limit(state.buffers),
        lines.len() <= MAX_STORED_LINES,
    ensures
        within_limit(state.snapshot_taken(prefix, raw_id, requested, lines, hms).buffers),
{
    let id = crate::relay_lines::full_id(prefix, raw_id);
    lemma_last_index(state.buffers, |b: BufferView| b.id == id);
    match buffer_place(state.buffers, id) {
        Some(i) => {
            let put = state.snapshot_put(i, lines);
            assert(within_limit(put.buffers));
        },
        None => {},
    }
}

proof fn lemma_relay_event(
    state: AppView,
    prefix: Seq<char>,
    event: Seq<char>,
    resp: WeeChatResponse,
    entries: Seq<RelayEntry>,
    clock: Clock,
)
    requires
        within_limit(state.buffers),
    ensures
        within_limit(state.relay_event(prefix, event, resp, entries, clock).buffers),
{
    lemma_line_entries(state, prefix, resp, entries, clock, body_of(resp).len());
    lemma_change_entries(state, prefix, resp, entries, body_of(resp).len());
    assert forall|id: Seq<char>, f: spec_fn(BufferView) -> BufferView|
        (forall|b: BufferView| (#[trigger] f(b)).messages == b.messages) implies within_limit(
        (#[trigger] state.changing(id, f)).buffers,
    ) by {
        lemma_changing(state, id, f);
    }
    assert forall|id: Seq<char>, change: BufferChange| within_limit(
        (#[trigger] state.buffer_changed(id, change)).buffers,
    ) by {
        lemma_changing(state, id, |b: BufferView| changed(b, change));
    }
    let unread = state.numbered_unread(prefix, resp.buffer_id);
    assert(unread.buffers == state.buffers);
    lemma_hotlist(unread, prefix, resp, clock.hms@);
}

proof fn lemma_hotlist(state: AppView, prefix: Seq<char>, resp: WeeChatResponse, hms: Seq<char>)
    requires
        within_limit(state.buffers),
    ensures
        within_limit(state.hotlist_taken(prefix, resp, hms).buffers),
{
    let n = body_of(resp).len();
    let logged = state.logged(prefix, hms, crate::relay_counts::hotlist_report(n));
    assert(logged.buffers == state.buffers);
    lemma_hot_entries(logged, prefix, resp, n);
    lemma_hot_entries(state, prefix, resp, n);
}

proof fn lemma_responded(
    state: AppView,
    prefix: Seq<char>,
    resp: WeeChatResponse,
    entries: Seq<RelayEntry>,
    clock: Clock,
)
    requires
        within_limit(state.buffers),
        entries.len() == body_of(resp).len(),
    ensures
        within_limit(state.responded(prefix, resp, entries, clock).buffers),
{
    let found = match resp.request_id {
        Some(id) => crate::events::route(id@),
        None => RouteView::Other,
    };
    match found {
        RouteView::Completion(n) => {},
        RouteView::List => {
            lemma_list_entries(state, prefix, body_of(resp), entries, body_of(resp).len());
            lemma_list_taken(
                state,
                prefix,
                state.list_entries(prefix, body_of(resp), entries, body_of(resp).len()),
                clock.hms@,
                clock.ticks,
            );
        },
        RouteView::Hotlist => {
            lemma_hotlist(state, prefix, resp, clock.hms@);
        },
        RouteView::Lines(raw_id, count) => {
            snapshot_is_chronological(body_of(resp), entries);
            lemma_snapshot(
                state,
                prefix,
                raw_id,
                count,
                snapshot_of(body_of(resp), entries),
                clock.hms@,
            );
        },
        RouteView::Nicks(raw_id) => {
            match resp.body {
                Some(value) => {
                    lemma_changing(
                        state,
                        crate::relay_lines::full_id(prefix, raw_id),
                        |b: BufferView|
                            crate::relay_details::with_nicks(b, crate::tags::nicks_in(value)),
                    );
                },
                None => {},
            }
        },
        RouteView::Info(raw_id) => {
            lemma_info_entries(
                state,
                prefix,
                crate::relay_lines::full_id(prefix, raw_id),
                body_of(resp),
                entries,
                body_of(resp).len(),
            );
        },
        RouteView::Other => {
            match resp.event_name {
                Some(event) => {
                    lemma_relay_event(state, prefix, event@, resp, entries, clock);
                },
                None => {},
            }
        },
    }
}

/// No event makes a buffer hold more lines than the limit, whatever a server
/// sends. Only the buffers that a server hands over whole have to be within it
/// already.
pub proof fn no_buffer_outgrows_its_limit(
    state: AppView,
    prefix: Seq<char>,
    event: BackendEvent,
    clock: Clock,
)
    requires
        within_limit(state.buffers),
        match event {
            BackendEvent::WeeChat(resp, entries) => entries@.len() == body_of(resp).len(),
            BackendEvent::BufferOpened(b) => b@.messages.len() <= MAX_STORED_LINES,
            BackendEvent::BuffersLoaded(list) => within_limit(views(list@)),
            _ => true,
        },
    ensures
        within_limit(state.handling(prefix, event, clock).buffers),
{
    lemma_filter(
        state.buffers,
        |b: BufferView| !crate::relay_buffers::belongs_to(b.id, prefix),
    );
    match event {
        BackendEvent::Connected => {
            assert(state.came_up(prefix, clock.hm@).buffers == without_connection(
                state.buffers,
                prefix,
            ));
        },
        BackendEvent::Disconnected => {},
        BackendEvent::AuthError(_) => {},
        BackendEvent::Error(_) => {},
        BackendEvent::ConnLog(_) => {},
        BackendEvent::WeeChat(resp, entries) => {
            lemma_responded(state, prefix, resp, entries@, clock);
        },
        BackendEvent::BufferOpened(b) => {
            let added = state.buffer_added(crate::backend::prefixed(b@, prefix));
            assert(within_limit(added.buffers));
            let id = crate::relay_lines::full_id(prefix, b@.id);
            lemma_selecting(added, id, clock.ticks);
            let awaited = added.awaited_selected(id, clock.ticks);
            let idle = AppView { pending_buffer_switch: None, ..awaited };
            assert forall|other: Seq<char>| within_limit(
                (#[trigger] idle.selecting(other, clock.ticks)).buffers,
            ) by {
                lemma_selecting(idle, other, clock.ticks);
            }
        },
        BackendEvent::BufferClosed { buffer_id } => {
            let id = crate::relay_lines::full_id(prefix, buffer_id@);
            lemma_filter(state.buffers, |b: BufferView| b.id != id);
        },
        BackendEvent::BuffersLoaded(list) => {
            let replaced = state.buffers_replaced(prefix, views(list@));
            assert(within_limit(replaced.buffers)) by {
                let kept = without_connection(state.buffers, prefix);
                let new = views(list@).map_values(
                    |b: BufferView| crate::backend::prefixed(b, prefix),
                );
                assert forall|i: int| 0 <= i < replaced.buffers.len() implies (
                #[trigger] replaced.buffers[i]).messages.len() <= MAX_STORED_LINES by {
                    if i < kept.len() {
                        assert(replaced.buffers[i] == kept[i]);
                    } else {
                        let k = i - kept.len();
                        assert(replaced.buffers[i] == new[k]);
                        assert(views(list@)[k].messages.len() <= MAX_STORED_LINES);
                    }
                }
            }
            assert forall|id: Seq<char>| within_limit(
                (#[trigger] replaced.selecting(id, clock.ticks)).buffers,
            ) by {
                lemma_selecting(replaced, id, clock.ticks);
            }
        },
        BackendEvent::LineAdded { buffer_id, line } => {
            let id = crate::relay_lines::full_id(prefix, buffer_id@);
            lemma_last_index(state.buffers, |b: BufferView| b.id == id);
            match buffer_place(state.buffers, id) {
                Some(i) => {
                    let on_view = state.selected_buffer_id == Some(id);
                    assert(state.buffers[i].messages.len() <= MAX_STORED_LINES);
                    lemma_update(
                        state.buffers,
                        i,
                        with_added_line(state.buffers[i], line@, on_view),
                    );
                },
                None => {},
            }
        },
        BackendEvent::LinesLoaded { buffer_id, lines, is_prepend } => {
            let id = crate::relay_lines::full_id(prefix, buffer_id@);
            let counts = state.selected_buffer_id != Some(id) && state.loading_more_buffer_id
                != Some(id);
            lemma_changing(
                state,
                id,
                |b: BufferView| with_page_taken(b, views(lines@), is_prepend, counts),
            );
        },
        _ => {
            assert forall|id: Seq<char>, change: BufferChange| within_limit(
                (#[trigger] state.buffer_changed(id, change)).buffers,
            ) by {
                lemma_changing(state, id, |b: BufferView| changed(b, change));
            }
        },
    }
}

} // verus!
