//! What one connection cannot do to the buffers of another.
use vstd::prelude::*;
use crate::backend::BackendEvent;
use crate::events::{changed, BufferChange, RouteView};
use crate::json::{json_object, member_id, Json};
use crate::lines::body_of;
use crate::models::{BufferView, LineView, WeeChatResponse};
use crate::order::{
    natural_order, saved_order_never_tears_groups, with_saved_order,
};
use crate::relay_buffers::{belongs_to, by_connection, without_connection};
use crate::relay_lines::{entry_buffer, full_id, with_read_line, with_unread_line, LineNews};
use crate::seqs::{lemma_last_index, lemma_sorted_by_permutation, views};
use crate::state::{buffer_place, AppView, Clock, RelayEntry};

verus! {

/// A buffer stands among others with the same lines.
pub open spec fn stands_in(buffers: Seq<BufferView>, b: BufferView) -> bool {
    exists|j: int|
        0 <= j < buffers.len() && (#[trigger] buffers[j]).id == b.id && buffers[j].messages
            == b.messages
}

/// Every buffer of another connection is still there, with the same lines.
pub open spec fn others_stand(
    before: Seq<BufferView>,
    after: Seq<BufferView>,
    prefix: Seq<char>,
) -> bool {
    forall|i: int|
        0 <= i < before.len() && !belongs_to((#[trigger] before[i]).id, prefix) ==> stands_in(
            after,
            before[i],
        )
}

proof fn lemma_same(buffers: Seq<BufferView>, prefix: Seq<char>)
    ensures
        others_stand(buffers, buffers, prefix),
{
    assert forall|i: int|
        0 <= i < buffers.len() && !belongs_to((#[trigger] buffers[i]).id, prefix) implies stands_in(
        buffers,
        buffers[i],
    ) by {
        assert(buffers[i].id == buffers[i].id);
    }
}

proof fn lemma_both(
    first: Seq<BufferView>,
    second: Seq<BufferView>,
    third: Seq<BufferView>,
    prefix: Seq<char>,
)
    requires
        others_stand(first, second, prefix),
        others_stand(second, third, prefix),
    ensures
        others_stand(first, third, prefix),
{
    assert forall|i: int|
        0 <= i < first.len() && !belongs_to((#[trigger] first[i]).id, prefix) implies stands_in(
        third,
        first[i],
    ) by {
        assert(stands_in(second, first[i]));
        let j = choose|j: int|
            0 <= j < second.len() && (#[trigger] second[j]).id == first[i].id && second[j].messages
                == first[i].messages;
        assert(stands_in(third, second[j]));
        let k = choose|k: int|
            0 <= k < third.len() && (#[trigger] third[k]).id == second[j].id && third[k].messages
                == second[j].messages;
        assert(third[k].id == first[i].id);
    }
}

proof fn lemma_own_id(prefix: Seq<char>, raw_id: Seq<char>)
    ensures
        belongs_to(full_id(prefix, raw_id), prefix),
{
    let head = prefix + "/"@;
    assert(full_id(prefix, raw_id).take(head.len() as int) =~= head);
    assert(full_id(prefix, raw_id).subrange(0, head.len() as int) =~= head);
}

proof fn lemma_changing(
    state: AppView,
    id: Seq<char>,
    f: spec_fn(BufferView) -> BufferView,
    prefix: Seq<char>,
)
    requires
        belongs_to(id, prefix),
    ensures
        others_stand(state.buffers, state.changing(id, f).buffers, prefix),
{
    lemma_last_index(state.buffers, |b: BufferView| b.id == id);
    lemma_same(state.buffers, prefix);
    match buffer_place(state.buffers, id) {
        Some(i) => {
            lemma_update(state.buffers, i, f(state.buffers[i]), prefix);
        },
        None => {},
    }
}

proof fn lemma_update(buffers: Seq<BufferView>, i: int, b: BufferView, prefix: Seq<char>)
    requires
        0 <= i < buffers.len(),
        belongs_to(buffers[i].id, prefix) || b.id == buffers[i].id && b.messages
            == buffers[i].messages,
    ensures
        others_stand(buffers, buffers.update(i, b), prefix),
{
    let after = buffers.update(i, b);
    assert forall|k: int|
        0 <= k < buffers.len() && !belongs_to((#[trigger] buffers[k]).id, prefix) implies stands_in(
        after,
        buffers[k],
    ) by {
        assert(after[k].id == buffers[k].id && after[k].messages == buffers[k].messages);
    }
}

proof fn lemma_joined(kept: Seq<BufferView>, more: Seq<BufferView>, prefix: Seq<char>)
    ensures
        others_stand(kept, kept + more, prefix),
{
    assert forall|i: int|
        0 <= i < kept.len() && !belongs_to((#[trigger] kept[i]).id, prefix) implies stands_in(
        kept + more,
        kept[i],
    ) by {
        assert((kept + more)[i] == kept[i]);
    }
}

proof fn lemma_filter(buffers: Seq<BufferView>, p: spec_fn(BufferView) -> bool, prefix: Seq<char>)
    requires
        forall|i: int|
            0 <= i < buffers.len() && !belongs_to((#[trigger] buffers[i]).id, prefix) ==> p(
                buffers[i],
            ),
    ensures
        others_stand(buffers, buffers.filter(p), prefix),
{
    let kept = buffers.filter(p);
    assert forall|i: int|
        0 <= i < buffers.len() && !belongs_to((#[trigger] buffers[i]).id, prefix) implies stands_in(
        kept,
        buffers[i],
    ) by {
        buffers.lemma_filter_contains(p, i);
        let k = choose|k: int| 0 <= k < kept.len() && kept[k] == buffers[i];
        assert(kept[k].id == buffers[i].id);
    }
}

proof fn lemma_dropped(buffers: Seq<BufferView>, prefix: Seq<char>)
    ensures
        others_stand(buffers, without_connection(buffers, prefix), prefix),
{
    lemma_filter(buffers, |b: BufferView| !belongs_to(b.id, prefix), prefix);
}

proof fn lemma_reordered(before: Seq<BufferView>, after: Seq<BufferView>, prefix: Seq<char>)
    requires
        after.to_multiset() == before.to_multiset(),
    ensures
        others_stand(before, after, prefix),
{
    broadcast use vstd::seq_lib::group_to_multiset_ensures;

    assert forall|i: int|
        0 <= i < before.len() && !belongs_to((#[trigger] before[i]).id, prefix) implies stands_in(
        after,
        before[i],
    ) by {
        assert(before.contains(before[i]));
        assert(before.to_multiset().count(before[i]) > 0);
        assert(after.to_multiset().count(before[i]) > 0);
        assert(after.contains(before[i]));
        let k = choose|k: int| 0 <= k < after.len() && after[k] == before[i];
        assert(after[k].id == before[i].id);
    }
}

proof fn lemma_selecting(state: AppView, id: Seq<char>, ticks: u64, prefix: Seq<char>)
    ensures
        others_stand(state.buffers, state.selecting(id, ticks).buffers, prefix),
{
    lemma_last_index(state.buffers, |b: BufferView| b.id == id);
    lemma_same(state.buffers, prefix);
    match buffer_place(state.buffers, id) {
        Some(i) => {
            lemma_update(
                state.buffers,
                i,
                crate::session::visited(state.buffers[i]),
                prefix,
            );
        },
        None => {},
    }
}

/// Where a new line changes the buffers.
proof fn lemma_line_place(
    state: AppView,
    id: Seq<char>,
    line: LineView,
    news: LineNews,
    ticks: u64,
)
    ensures
        ({
            let after = state.line_taken(id, line, news, ticks).buffers;
            match buffer_place(state.buffers, id) {
                Some(i) => after == state.buffers || after == state.buffers.update(
                    i,
                    with_read_line(state.buffers[i], line),
                ) || after == state.buffers.update(
                    i,
                    with_unread_line(state.buffers[i], line, news),
                ),
                None => after == state.buffers,
            }
        }),
{
}

proof fn lemma_line_taken(
    state: AppView,
    id: Seq<char>,
    line: LineView,
    news: LineNews,
    ticks: u64,
    prefix: Seq<char>,
)
    requires
        belongs_to(id, prefix),
    ensures
        others_stand(state.buffers, state.line_taken(id, line, news, ticks).buffers, prefix),
{
    lemma_line_place(state, id, line, news, ticks);
    lemma_one_place(
        state.buffers,
        state.line_taken(id, line, news, ticks).buffers,
        id,
        prefix,
    );
}

/// A change to the buffer of an id leaves the other buffers alone.
proof fn lemma_one_place(
    before: Seq<BufferView>,
    after: Seq<BufferView>,
    id: Seq<char>,
    prefix: Seq<char>,
)
    requires
        belongs_to(id, prefix),
        match buffer_place(before, id) {
            Some(i) => after == before || exists|b: BufferView| after == #[trigger] before.update(
                i,
                b,
            ),
            None => after == before,
        },
    ensures
        others_stand(before, after, prefix),
{
    lemma_same(before, prefix);
    lemma_last_index(before, |b: BufferView| b.id == id);
    match buffer_place(before, id) {
        Some(i) => {
            if after != before {
                let b = choose|b: BufferView| after == #[trigger] before.update(i, b);
                lemma_update(before, i, b, prefix);
            }
        },
        None => {},
    }
}

proof fn lemma_line_entries(
    state: AppView,
    prefix: Seq<char>,
    resp: WeeChatResponse,
    entries: Seq<RelayEntry>,
    clock: Clock,
    n: nat,
)
    ensures
        others_stand(
            state.buffers,
            state.line_entries(prefix, resp, entries, clock.now, clock.ticks, n).buffers,
            prefix,
        ),
    decreases n,
{
    lemma_same(state.buffers, prefix);
    if n == 0 || n > body_of(resp).len() || n > entries.len() {
    } else {
        lemma_line_entries(state, prefix, resp, entries, clock, (n - 1) as nat);
        let before = state.line_entries(
            prefix,
            resp,
            entries,
            clock.now,
            clock.ticks,
            (n - 1) as nat,
        );
        let after = state.line_entries(prefix, resp, entries, clock.now, clock.ticks, n);
        lemma_same(before.buffers, prefix);
        assert forall|raw_id: Seq<char>, line: LineView, news: LineNews| others_stand(
            before.buffers,
            (#[trigger] before.line_taken(
                full_id(prefix, raw_id),
                line,
                news,
                clock.ticks,
            )).buffers,
            prefix,
        ) by {
            lemma_own_id(prefix, raw_id);
            lemma_line_taken(before, full_id(prefix, raw_id), line, news, clock.ticks, prefix);
        }
        assert(others_stand(before.buffers, after.buffers, prefix));
        lemma_both(state.buffers, before.buffers, after.buffers, prefix);
    }
}

proof fn lemma_change_entries(
    state: AppView,
    prefix: Seq<char>,
    resp: WeeChatResponse,
    entries: Seq<RelayEntry>,
    n: nat,
)
    ensures
        others_stand(
            state.buffers,
            state.change_entries(prefix, resp, entries, n).buffers,
            prefix,
        ),
    decreases n,
{
    lemma_same(state.buffers, prefix);
    if n == 0 || n > body_of(resp).len() || n > entries.len() {
    } else {
        lemma_change_entries(state, prefix, resp, entries, (n - 1) as nat);
        let before = state.change_entries(prefix, resp, entries, (n - 1) as nat);
        let after = state.change_entries(prefix, resp, entries, n);
        let date = crate::lines::entry_date(body_of(resp)[n - 1], entries[n - 1]);
        lemma_same(before.buffers, prefix);
        match json_object(body_of(resp)[n - 1]) {
            Some(obj) => match (entry_buffer(resp.buffer_id, obj), member_id(obj, "id"@)) {
                (Some(raw_id), Some(line_id)) => {
                    lemma_own_id(prefix, raw_id);
                    lemma_changing(
                        before,
                        full_id(prefix, raw_id),
                        |b: BufferView|
                            crate::relay_lines::with_changed_line(b, obj, line_id, date),
                        prefix,
                    );
                },
                _ => {},
            },
            None => {},
        }
        lemma_both(state.buffers, before.buffers, after.buffers, prefix);
    }
}

proof fn lemma_hot_entries(state: AppView, prefix: Seq<char>, resp: WeeChatResponse, n: nat)
    ensures
        others_stand(state.buffers, state.hot_entries(prefix, resp, n).buffers, prefix),
    decreases n,
{
    lemma_same(state.buffers, prefix);
    if n == 0 || n > body_of(resp).len() {
    } else {
        lemma_hot_entries(state, prefix, resp, (n - 1) as nat);
        let before = state.hot_entries(prefix, resp, (n - 1) as nat);
        let after = state.hot_entries(prefix, resp, n);
        lemma_same(before.buffers, prefix);
        match json_object(body_of(resp)[n - 1]) {
            Some(obj) => match member_id(obj, "buffer_id"@) {
                Some(raw_id) => {
                    lemma_own_id(prefix, raw_id);
                    lemma_changing(
                        before,
                        full_id(prefix, raw_id),
                        |b: BufferView| crate::relay_counts::with_hot_entry(b, obj),
                        prefix,
                    );
                },
                None => {},
            },
            None => {},
        }
        lemma_both(state.buffers, before.buffers, after.buffers, prefix);
    }
}

proof fn lemma_info_entries(
    state: AppView,
    prefix: Seq<char>,
    id: Seq<char>,
    body: Seq<Json>,
    entries: Seq<RelayEntry>,
    n: nat,
)
    requires
        belongs_to(id, prefix),
    ensures
        others_stand(
            state.buffers,
            state.info_entries(prefix, id, body, entries, n).buffers,
            prefix,
        ),
    decreases n,
{
    lemma_same(state.buffers, prefix);
    if n == 0 || n > body.len() || n > entries.len() {
    } else {
        lemma_info_entries(state, prefix, id, body, entries, (n - 1) as nat);
        let before = state.info_entries(prefix, id, body, entries, (n - 1) as nat);
        let after = state.info_entries(prefix, id, body, entries, n);
        lemma_same(before.buffers, prefix);
        match json_object(body[n - 1]) {
            Some(obj) => {
                lemma_changing(
                    before,
                    id,
                    |b: BufferView|
                        crate::relay_details::with_info(b, prefix, obj, entries[n - 1]),
                    prefix,
                );
            },
            None => {},
        }
        lemma_both(state.buffers, before.buffers, after.buffers, prefix);
    }
}

proof fn lemma_list_replaced(state: AppView, prefix: Seq<char>, list: Seq<BufferView>)
    ensures
        others_stand(
            state.buffers,
            state.list_replaced(prefix, list).order_tried().connections_together().buffers,
            prefix,
        ),
{
    let kept = without_connection(state.buffers, prefix);
    let replaced = state.list_replaced(prefix, list);
    lemma_dropped(state.buffers, prefix);
    lemma_joined(kept, natural_order(list), prefix);
    lemma_both(state.buffers, kept, replaced.buffers, prefix);
    saved_order_never_tears_groups(replaced.buffers, replaced.buffer_order);
    let tried = replaced.order_tried();
    lemma_reordered(
        replaced.buffers,
        with_saved_order(replaced.buffers, replaced.buffer_order),
        prefix,
    );
    lemma_both(state.buffers, replaced.buffers, tried.buffers, prefix);
    lemma_sorted_by_permutation(
        tried.buffers,
        |a: BufferView, b: BufferView|
            crate::text::text_le(
                crate::order::connection_of(a.id),
                crate::order::connection_of(b.id),
            ),
    );
    lemma_reordered(tried.buffers, by_connection(tried.buffers), prefix);
    lemma_same(tried.buffers, prefix);
    lemma_both(
        state.buffers,
        tried.buffers,
        tried.connections_together().buffers,
        prefix,
    );
}

proof fn lemma_list_taken(
    state: AppView,
    prefix: Seq<char>,
    list: Seq<BufferView>,
    hms: Seq<char>,
    ticks: u64,
)
    ensures
        others_stand(
            state.buffers,
            state.list_taken(prefix, list, hms, ticks).buffers,
            prefix,
        ),
{
    lemma_same(state.buffers, prefix);
    let logged = state.logged(prefix, hms, crate::relay_buffers::list_report(list));
    lemma_list_replaced(logged, prefix, list);
    let together = logged.list_replaced(prefix, list).order_tried().connections_together();
    let unselected = together.thread_unselected();
    assert(unselected.buffers == together.buffers);
    let idle = AppView { pending_buffer_switch: None, ..unselected };
    assert forall|id: Seq<char>| others_stand(
        idle.buffers,
        (#[trigger] idle.selecting(id, ticks)).buffers,
        prefix,
    ) by {
        lemma_selecting(idle, id, ticks, prefix);
    }
    lemma_same(unselected.buffers, prefix);
    let switched = unselected.listed_switch(ticks);
    lemma_both(state.buffers, unselected.buffers, switched.buffers, prefix);
    assert forall|id: Seq<char>| others_stand(
        switched.buffers,
        (#[trigger] switched.selecting(id, ticks)).buffers,
        prefix,
    ) by {
        lemma_selecting(switched, id, ticks, prefix);
    }
    lemma_same(switched.buffers, prefix);
    let chosen = switched.chat_chosen(prefix, ticks);
    lemma_both(state.buffers, switched.buffers, chosen.buffers, prefix);
    assert(chosen.hotlist_asked(prefix, hms).buffers == chosen.buffers);
}

proof fn lemma_snapshot(
    state: AppView,
    prefix: Seq<char>,
    raw_id: Seq<char>,
    requested: Option<usize>,
    lines: Seq<LineView>,
    hms: Seq<char>,
)
    ensures
        others_stand(
            state.buffers,
            state.snapshot_taken(prefix, raw_id, requested, lines, hms).buffers,
            prefix,
        ),
{
    let id = full_id(prefix, raw_id);
    lemma_own_id(prefix, raw_id);
    lemma_same(state.buffers, prefix);
    lemma_last_index(state.buffers, |b: BufferView| b.id == id);
    match buffer_place(state.buffers, id) {
        Some(i) => {
            let put = state.snapshot_put(i, lines);
            lemma_update(state.buffers, i, put.buffers[i], prefix);
            assert(put.buffers =~= state.buffers.update(i, put.buffers[i]));
        },
        None => {},
    }
}

proof fn lemma_hotlist(state: AppView, prefix: Seq<char>, resp: WeeChatResponse, hms: Seq<char>)
    ensures
        others_stand(state.buffers, state.hotlist_taken(prefix, resp, hms).buffers, prefix),
{
    let n = body_of(resp).len();
    let logged = state.logged(prefix, hms, crate::relay_counts::hotlist_report(n));
    assert(logged.buffers == state.buffers);
    lemma_hot_entries(logged, prefix, resp, n);
    lemma_hot_entries(state, prefix, resp, n);
}

proof fn lemma_own_changes(state: AppView, prefix: Seq<char>)
    ensures
        forall|raw_id: Seq<char>, f: spec_fn(BufferView) -> BufferView|
            others_stand(
                state.buffers,
                (#[trigger] state.changing(full_id(prefix, raw_id), f)).buffers,
                prefix,
            ),
        forall|raw_id: Seq<char>, change: BufferChange|
            others_stand(
                state.buffers,
                (#[trigger] state.buffer_changed(full_id(prefix, raw_id), change)).buffers,
                prefix,
            ),
{
    assert forall|raw_id: Seq<char>, f: spec_fn(BufferView) -> BufferView| others_stand(
        state.buffers,
        (#[trigger] state.changing(full_id(prefix, raw_id), f)).buffers,
        prefix,
    ) by {
        lemma_own_id(prefix, raw_id);
        lemma_changing(state, full_id(prefix, raw_id), f, prefix);
    }
    assert forall|raw_id: Seq<char>, change: BufferChange| others_stand(
        state.buffers,
        (#[trigger] state.buffer_changed(full_id(prefix, raw_id), change)).buffers,
        prefix,
    ) by {
        lemma_own_id(prefix, raw_id);
        lemma_changing(
            state,
            full_id(prefix, raw_id),
            |b: BufferView| changed(b, change),
            prefix,
        );
    }
}

proof fn lemma_relay_event(
    state: AppView,
    prefix: Seq<char>,
    event: Seq<char>,
    resp: WeeChatResponse,
    entries: Seq<RelayEntry>,
    clock: Clock,
)
    ensures
        others_stand(
            state.buffers,
            state.relay_event(prefix, event, resp, entries, clock).buffers,
            prefix,
        ),
{
    lemma_same(state.buffers, prefix);
    lemma_line_entries(state, prefix, resp, entries, clock, body_of(resp).len());
    lemma_change_entries(state, prefix, resp, entries, body_of(resp).len());
    lemma_own_changes(state, prefix);
    let unread = state.numbered_unread(prefix, resp.buffer_id);
    assert(unread.buffers == state.buffers);
    lemma_hotlist(unread, prefix, resp, clock.hms@);
}

proof fn lemma_responded(
    state: AppView,
    prefix: Seq<char>,
    resp: WeeChatResponse,
    entries: Seq<RelayEntry>,
    clock: Clock,
)
    ensures
        others_stand(
            state.buffers,
            state.responded(prefix, resp, entries, clock).buffers,
            prefix,
        ),
{
    lemma_same(state.buffers, prefix);
    let found = match resp.request_id {
        Some(id) => crate::events::route(id@),
        None => RouteView::Other,
    };
    match found {
        RouteView::Completion(_) => {},
        RouteView::List => {
            lemma_list_taken(
                state,
                prefix,
                state.list_entries(prefix, body_of(resp), entries, body_of(resp).len()),
                clock.hms@,
                clock.ticks,
            );
        },
        RouteView::Hotlist => {
            lemma_hotlist(state, prefix, resp, clock.hms@);
        },
        RouteView::Lines(raw_id, count) => {
            lemma_snapshot(
                state,
                prefix,
                raw_id,
                count,
                crate::lines::snapshot_of(body_of(resp), entries),
                clock.hms@,
            );
        },
        RouteView::Nicks(_) => {
            lemma_own_changes(state, prefix);
        },
        RouteView::Info(raw_id) => {
            lemma_own_id(prefix, raw_id);
            lemma_info_entries(
                state,
                prefix,
                full_id(prefix, raw_id),
                body_of(resp),
                entries,
                body_of(resp).len(),
            );
        },
        RouteView::Other => {
            match resp.event_name {
                Some(event) => {
                    lemma_relay_event(state, prefix, event@, resp, entries, clock);
                },
                None => {},
            }
        },
    }
}

/// No event of a connection takes a buffer of another connection away or
/// changes its lines.
pub proof fn connections_leave_each_other_alone(
    state: AppView,
    prefix: Seq<char>,
    event: BackendEvent,
    clock: Clock,
)
    ensures
        others_stand(state.buffers, state.handling(prefix, event, clock).buffers, prefix),
{
    lemma_same(state.buffers, prefix);
    lemma_dropped(state.buffers, prefix);
    match event {
        BackendEvent::Connected => {
            assert(state.came_up(prefix, clock.hm@).buffers == without_connection(
                state.buffers,
                prefix,
            ));
        },
        BackendEvent::Disconnected => {
            assert(state.went_down(prefix, clock.hm@).buffers == without_connection(
                state.buffers,
                prefix,
            ));
        },
        BackendEvent::AuthError(_) => {},
        BackendEvent::Error(_) => {},
        BackendEvent::ConnLog(_) => {},
        BackendEvent::WeeChat(resp, entries) => {
            lemma_responded(state, prefix, resp, entries@, clock);
        },
        BackendEvent::BufferOpened(b) => {
            let new = crate::backend::prefixed(b@, prefix);
            let added = state.buffer_added(new);
            lemma_joined(state.buffers, seq![new], prefix);
            assert(state.buffers.push(new) =~= state.buffers + seq![new]);
            let id = full_id(prefix, b@.id);
            lemma_same(added.buffers, prefix);
            lemma_selecting(added, id, clock.ticks, prefix);
            let awaited = added.awaited_selected(id, clock.ticks);
            lemma_both(state.buffers, added.buffers, awaited.buffers, prefix);
            lemma_same(awaited.buffers, prefix);
            let idle = AppView { pending_buffer_switch: None, ..awaited };
            assert forall|other: Seq<char>| others_stand(
                idle.buffers,
                (#[trigger] idle.selecting(other, clock.ticks)).buffers,
                prefix,
            ) by {
                lemma_selecting(idle, other, clock.ticks, prefix);
            }
            let opened = awaited.opened_switch(clock.ticks);
            lemma_both(state.buffers, awaited.buffers, opened.buffers, prefix);
        },
        BackendEvent::BufferClosed { buffer_id } => {
            let id = full_id(prefix, buffer_id@);
            lemma_own_id(prefix, buffer_id@);
            lemma_filter(state.buffers, |b: BufferView| b.id != id, prefix);
        },
        BackendEvent::BuffersLoaded(list) => {
            let kept = without_connection(state.buffers, prefix);
            let new = views(list@).map_values(
                |b: BufferView| crate::backend::prefixed(b, prefix),
            );
            let replaced = state.buffers_replaced(prefix, views(list@));
            lemma_joined(kept, new, prefix);
            lemma_both(state.buffers, kept, replaced.buffers, prefix);
            lemma_same(replaced.buffers, prefix);
            assert forall|id: Seq<char>| others_stand(
                replaced.buffers,
                (#[trigger] replaced.selecting(id, clock.ticks)).buffers,
                prefix,
            ) by {
                lemma_selecting(replaced, id, clock.ticks, prefix);
            }
            let chosen = replaced.any_chat_chosen(clock.ticks);
            lemma_both(state.buffers, replaced.buffers, chosen.buffers, prefix);
        },
        BackendEvent::LineAdded { buffer_id, line } => {
            let id = full_id(prefix, buffer_id@);
            lemma_own_id(prefix, buffer_id@);
            lemma_last_index(state.buffers, |b: BufferView| b.id == id);
            match buffer_place(state.buffers, id) {
                Some(i) => {
                    lemma_update(
                        state.buffers,
                        i,
                        crate::backend::with_added_line(
                            state.buffers[i],
                            line@,
                            state.selected_buffer_id == Some(id),
                        ),
                        prefix,
                    );
                },
                None => {},
            }
        },
        _ => {
            lemma_own_changes(state, prefix);
        },
    }
}

} // verus!
