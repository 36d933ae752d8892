//! What makes a buffer known: its id.
use vstd::prelude::*;
use crate::backend::{prefixed, with_added_line, with_page_taken, BackendEvent};
use crate::events::{changed, route, BufferChange, RouteView};
use crate::json::Json;
use crate::lines::{body_of, entry_date, snapshot_of};
use crate::models::{BufferView, LineView, WeeChatResponse};
use crate::order::{
    natural_order, natural_order_groups_servers, saved_order_never_tears_groups, with_saved_order,
};
use crate::relay_buffers::{belongs_to, by_connection, without_connection};
use crate::relay_lines::{full_id, with_changed_line, with_read_line, with_unread_line, LineNews};
use crate::seqs::{
    lemma_filter_push, lemma_last_index, lemma_last_is, lemma_sorted_by_permutation, views,
};
use crate::state::{buffer_place, index_map, AppView, Clock, RelayEntry};

verus! {

/// No two buffers have the same id.
pub open spec fn distinct_ids(buffers: Seq<BufferView>) -> bool {
    forall|i: int, j: int|
        0 <= i < j < buffers.len() ==> (#[trigger] buffers[i]).id != (#[trigger] buffers[j]).id
}

/// Whether two lists have the same ids in the same order.
pub open spec fn same_ids(a: Seq<BufferView>, b: Seq<BufferView>) -> bool {
    a.len() == b.len() && forall|i: int|
        0 <= i < a.len() ==> (#[trigger] a[i]).id == (#[trigger] b[i]).id
}

/// The index of distinct ids is as long as the list, and names the place of
/// every buffer.
pub proof fn index_names_every_buffer(buffers: Seq<BufferView>)
    requires
        distinct_ids(buffers),
        buffers.len() <= usize::MAX,
    ensures
        index_map(buffers).dom().finite(),
        index_map(buffers).dom().len() == buffers.len(),
        forall|i: int|
            0 <= i < buffers.len() ==> index_map(buffers).contains_key((#[trigger] buffers[i]).id)
                && index_map(buffers)[buffers[i].id] == i,
{
    reveal(index_map);
    let ids = buffers.map_values(|b: BufferView| b.id);
    assert forall|i: int| 0 <= i < buffers.len() implies buffer_place(
        buffers,
        (#[trigger] buffers[i]).id,
    ) == Some(i) by {
        let p = |b: BufferView| b.id == buffers[i].id;
        assert(p(buffers[i]));
        assert forall|j: int| i < j < buffers.len() implies !p(#[trigger] buffers[j]) by {
            assert(buffers[i].id != buffers[j].id);
        }
        lemma_last_is(buffers, p, i);
    }
    assert(ids.no_duplicates()) by {
        assert forall|i: int, j: int| 0 <= i < ids.len() && 0 <= j < ids.len() && i != j implies ids[i]
            != ids[j] by {
            assert(ids[i] == buffers[i].id && ids[j] == buffers[j].id);
            if i < j {
                assert(buffers[i].id != buffers[j].id);
            } else {
                assert(buffers[j].id != buffers[i].id);
            }
        }
    }
    assert(index_map(buffers).dom() =~= ids.to_set()) by {
        assert forall|id: Seq<char>| index_map(buffers).contains_key(id) <==> #[trigger] ids.contains(
            id,
        ) by {
            lemma_last_index(buffers, |b: BufferView| b.id == id);
            if index_map(buffers).contains_key(id) {
                assert(ids[buffer_place(buffers, id)->0] == id);
            }
            if ids.contains(id) {
                let k = choose|k: int| 0 <= k < ids.len() && ids[k] == id;
                assert(buffers[k].id == id);
            }
        }
    }
    ids.unique_seq_to_set();
}

proof fn lemma_kept(a: Seq<BufferView>, b: Seq<BufferView>)
    requires
        distinct_ids(a),
        same_ids(a, b),
    ensures
        distinct_ids(b),
{
    assert forall|i: int, j: int| 0 <= i < j < b.len() implies (#[trigger] b[i]).id != (
    #[trigger] b[j]).id by {
        assert(a[i].id != a[j].id);
    }
}

proof fn lemma_update(buffers: Seq<BufferView>, i: int, b: BufferView)
    requires
        distinct_ids(buffers),
        0 <= i < buffers.len() ==> b.id == buffers[i].id,
    ensures
        0 <= i < buffers.len() ==> distinct_ids(buffers.update(i, b)),
{
    if 0 <= i < buffers.len() {
        lemma_kept(buffers, buffers.update(i, b));
    }
}

proof fn lemma_changing(state: AppView, id: Seq<char>, f: spec_fn(BufferView) -> BufferView)
    requires
        distinct_ids(state.buffers),
        forall|b: BufferView| (#[trigger] f(b)).id == b.id,
    ensures
        distinct_ids(state.changing(id, f).buffers),
{
    lemma_last_index(state.buffers, |b: BufferView| b.id == id);
    match buffer_place(state.buffers, id) {
        Some(i) => {
            lemma_update(state.buffers, i, f(state.buffers[i]));
        },
        None => {},
    }
}

proof fn lemma_filter(buffers: Seq<BufferView>, p: spec_fn(BufferView) -> bool)
    requires
        distinct_ids(buffers),
    ensures
        distinct_ids(buffers.filter(p)),
    decreases buffers.len(),
{
    if buffers.len() == 0 {
        reveal(Seq::filter);
    } else {
        let front = buffers.drop_last();
        let last = buffers.last();
        lemma_filter(front, p);
        lemma_filter_push(front, last, p);
        assert(front.push(last) =~= buffers);
        let kept = front.filter(p);
        assert forall|i: int| 0 <= i < kept.len() implies (#[trigger] kept[i]).id != last.id by {
            front.lemma_filter_contains_rev(p, kept[i]);
            let k = choose|k: int| 0 <= k < front.len() && front[k] == kept[i];
            assert(buffers[k].id != buffers[buffers.len() - 1].id);
        }
    }
}

proof fn lemma_reordered(before: Seq<BufferView>, after: Seq<BufferView>)
    requires
        distinct_ids(before),
        after.to_multiset() == before.to_multiset(),
    ensures
        distinct_ids(after),
{
    broadcast use vstd::seq_lib::group_to_multiset_ensures;

    assert(before.no_duplicates()) by {
        assert forall|i: int, j: int|
            0 <= i < before.len() && 0 <= j < before.len() && i != j implies before[i]
            != before[j] by {
            if i < j {
                assert(before[i].id != before[j].id);
            } else {
                assert(before[j].id != before[i].id);
            }
        }
    }
    before.lemma_multiset_has_no_duplicates();
    after.lemma_multiset_has_no_duplicates_conv();
    assert forall|i: int, j: int| 0 <= i < j < after.len() implies (#[trigger] after[i]).id != (
    #[trigger] after[j]).id by {
        assert(after.to_multiset().count(after[i]) > 0);
        assert(after.to_multiset().count(after[j]) > 0);
        assert(before.contains(after[i]) && before.contains(after[j]));
        let k = choose|k: int| 0 <= k < before.len() && before[k] == after[i];
        let l = choose|l: int| 0 <= l < before.len() && before[l] == after[j];
        if k < l {
            assert(before[k].id != before[l].id);
        } else if l < k {
            assert(before[l].id != before[k].id);
        }
    }
}

/// The buffers of other connections and buffers of this one have no id in
/// common.
proof fn lemma_joined(buffers: Seq<BufferView>, prefix: Seq<char>, list: Seq<BufferView>)
    requires
        distinct_ids(buffers),
        distinct_ids(list),
        forall|i: int| 0 <= i < list.len() ==> belongs_to((#[trigger] list[i]).id, prefix),
    ensures
        distinct_ids(without_connection(buffers, prefix) + list),
{
    let p = |b: BufferView| !belongs_to(b.id, prefix);
    let kept = without_connection(buffers, prefix);
    lemma_filter(buffers, p);
    let all = kept + list;
    assert forall|i: int, j: int| 0 <= i < j < all.len() implies (#[trigger] all[i]).id != (
    #[trigger] all[j]).id by {
        if j < kept.len() {
            assert(kept[i].id != kept[j].id);
        } else if i >= kept.len() {
            assert(list[i - kept.len()].id != list[j - kept.len()].id);
        } else {
            buffers.lemma_filter_pred(p, i);
            assert(belongs_to(list[j - kept.len()].id, prefix));
        }
    }
}

/// Buffers keep their ids apart under the names that they have across
/// connections.
proof fn lemma_prefixed(list: Seq<BufferView>, prefix: Seq<char>)
    requires
        distinct_ids(list),
    ensures
        ({
            let new = list.map_values(|b: BufferView| prefixed(b, prefix));
            &&& distinct_ids(new)
            &&& forall|i: int| 0 <= i < new.len() ==> belongs_to((#[trigger] new[i]).id, prefix)
        }),
{
    let new = list.map_values(|b: BufferView| prefixed(b, prefix));
    let head = prefix + "/"@;
    assert forall|i: int, j: int| 0 <= i < j < new.len() implies (#[trigger] new[i]).id != (
    #[trigger] new[j]).id by {
        assert(list[i].id != list[j].id);
        assert(new[i].id.skip(head.len() as int) =~= list[i].id);
        assert(new[j].id.skip(head.len() as int) =~= list[j].id);
    }
    assert forall|i: int| 0 <= i < new.len() implies belongs_to((#[trigger] new[i]).id, prefix) by {
        lemma_own_id(prefix, list[i].id);
    }
}

proof fn lemma_added(state: AppView, b: BufferView)
    requires
        distinct_ids(state.buffers),
    ensures
        distinct_ids(state.buffer_added(b).buffers),
{
    lemma_last_index(state.buffers, |other: BufferView| other.id == b.id);
    if buffer_place(state.buffers, b.id) is None {
        let after = state.buffers.push(b);
        assert forall|i: int, j: int| 0 <= i < j < after.len() implies (#[trigger] after[i]).id != (
        #[trigger] after[j]).id by {
            if j < state.buffers.len() {
                assert(state.buffers[i].id != state.buffers[j].id);
            } else {
                assert(after[i] == state.buffers[i]);
            }
        }
    }
}

proof fn lemma_own_id(prefix: Seq<char>, raw_id: Seq<char>)
    ensures
        belongs_to(full_id(prefix, raw_id), prefix),
{
    assert(full_id(prefix, raw_id).take((prefix + "/"@).len() as int) =~= prefix + "/"@);
}

proof fn lemma_selecting(state: AppView, id: Seq<char>, ticks: u64)
    requires
        distinct_ids(state.buffers),
    ensures
        distinct_ids(state.selecting(id, ticks).buffers),
{
    let p = |b: BufferView| b.id == id;
    lemma_last_index(state.buffers, p);
}

proof fn lemma_line_taken(state: AppView, id: Seq<char>, line: LineView, news: LineNews, ticks: u64)
    requires
        distinct_ids(state.buffers),
    ensures
        distinct_ids(state.line_taken(id, line, news, ticks).buffers),
{
    lemma_last_index(state.buffers, |b: BufferView| b.id == id);
    match buffer_place(state.buffers, id) {
        Some(i) => {
            let b = state.buffers[i];
            lemma_update(state.buffers, i, with_read_line(b, line));
            lemma_update(state.buffers, i, with_unread_line(b, line, news));
        },
        None => {},
    }
}

proof fn lemma_line_entries(
    state: AppView,
    prefix: Seq<char>,
    resp: WeeChatResponse,
    entries: Seq<RelayEntry>,
    clock: Clock,
    n: nat,
)
    requires
        distinct_ids(state.buffers),
    ensures
        distinct_ids(
            state.line_entries(prefix, resp, entries, clock.now, clock.ticks, n).buffers,
        ),
    decreases n,
{
    if n == 0 || n > body_of(resp).len() || n > entries.len() {
    } else {
        lemma_line_entries(state, prefix, resp, entries, clock, (n - 1) as nat);
        let before = state.line_entries(
            prefix,
            resp,
            entries,
            clock.now,
            clock.ticks,
            (n - 1) as nat,
        );
        assert forall|id: Seq<char>, line: LineView, news: LineNews| distinct_ids(
            (#[trigger] before.line_taken(id, line, news, clock.ticks)).buffers,
        ) by {
            lemma_line_taken(before, id, line, news, clock.ticks);
        }
    }
}

proof fn lemma_change_entries(
    state: AppView,
    prefix: Seq<char>,
    resp: WeeChatResponse,
    entries: Seq<RelayEntry>,
    n: nat,
)
    requires
        distinct_ids(state.buffers),
    ensures
        distinct_ids(state.change_entries(prefix, resp, entries, n).buffers),
    decreases n,
{
    if n == 0 || n > body_of(resp).len() || n > entries.len() {
    } else {
        lemma_change_entries(state, prefix, resp, entries, (n - 1) as nat);
        let before = state.change_entries(prefix, resp, entries, (n - 1) as nat);
        let value = body_of(resp)[n - 1];
        let date = entry_date(value, entries[n - 1]);
        match crate::json::json_object(value) {
            Some(obj) => match (
                crate::relay_lines::entry_buffer(resp.buffer_id, obj),
                crate::json::member_id(obj, "id"@),
            ) {
                (Some(raw_id), Some(line_id)) => {
                    lemma_changing(
                        before,
                        full_id(prefix, raw_id),
                        |b: BufferView|
                            with_changed_line(b, obj, line_id, date),
                    );
                },
                _ => {},
            },
            None => {},
        }
    }
}

proof fn lemma_hot_entries(state: AppView, prefix: Seq<char>, resp: WeeChatResponse, n: nat)
    requires
        distinct_ids(state.buffers),
    ensures
        distinct_ids(state.hot_entries(prefix, resp, n).buffers),
    decreases n,
{
    if n == 0 || n > body_of(resp).len() {
    } else {
        lemma_hot_entries(state, prefix, resp, (n - 1) as nat);
        let before = state.hot_entries(prefix, resp, (n - 1) as nat);
        match crate::json::json_object(body_of(resp)[n - 1]) {
            Some(obj) => match crate::json::member_id(obj, "buffer_id"@) {
                Some(raw_id) => {
                    lemma_changing(
                        before,
                        full_id(prefix, raw_id),
                        |b: BufferView| crate::relay_counts::with_hot_entry(b, obj),
                    );
                },
                None => {},
            },
            None => {},
        }
    }
}

proof fn lemma_info_entries(
    state: AppView,
    prefix: Seq<char>,
    id: Seq<char>,
    body: Seq<Json>,
    entries: Seq<RelayEntry>,
    n: nat,
)
    requires
        distinct_ids(state.buffers),
    ensures
        distinct_ids(state.info_entries(prefix, id, body, entries, n).buffers),
    decreases n,
{
    if n == 0 || n > body.len() || n > entries.len() {
    } else {
        lemma_info_entries(state, prefix, id, body, entries, (n - 1) as nat);
        let before = state.info_entries(prefix, id, body, entries, (n - 1) as nat);
        match crate::json::json_object(body[n - 1]) {
            Some(obj) => {
                lemma_changing(
                    before,
                    id,
                    |b: BufferView|
                        crate::relay_details::with_info(b, prefix, obj, entries[n - 1]),
                );
            },
            None => {},
        }
    }
}

/// The buffers that a list describes belong to its connection.
proof fn lemma_list_entries(
    state: AppView,
    prefix: Seq<char>,
    body: Seq<Json>,
    entries: Seq<RelayEntry>,
    n: nat,
)
    ensures
        forall|i: int|
            0 <= i < state.list_entries(prefix, body, entries, n).len() ==> belongs_to(
                (#[trigger] state.list_entries(prefix, body, entries, n)[i]).id,
                prefix,
            ),
    decreases n,
{
    if n == 0 || n > body.len() || n > entries.len() {
    } else {
        lemma_list_entries(state, prefix, body, entries, (n - 1) as nat);
        match crate::json::json_object(body[n - 1]) {
            Some(obj) => match crate::json::member_id(obj, "id"@) {
                Some(raw_id) => {
                    lemma_own_id(prefix, raw_id);
                },
                None => {},
            },
            None => {},
        }
    }
}

proof fn lemma_list_replaced(state: AppView, prefix: Seq<char>, list: Seq<BufferView>)
    requires
        distinct_ids(state.buffers),
        distinct_ids(list),
        forall|i: int| 0 <= i < list.len() ==> belongs_to((#[trigger] list[i]).id, prefix),
    ensures
        distinct_ids(
            state.list_replaced(prefix, list).order_tried().connections_together().buffers,
        ),
{
    natural_order_groups_servers(list);
    let ordered = natural_order(list);
    lemma_reordered(list, ordered);
    assert forall|i: int| 0 <= i < ordered.len() implies belongs_to(
        (#[trigger] ordered[i]).id,
        prefix,
    ) by {
        broadcast use vstd::seq_lib::group_to_multiset_ensures;

        assert(ordered.to_multiset().count(ordered[i]) > 0);
        assert(list.contains(ordered[i]));
    }
    lemma_joined(state.buffers, prefix, ordered);
    let replaced = state.list_replaced(prefix, list);
    assert(distinct_ids(replaced.buffers));
    saved_order_never_tears_groups(replaced.buffers, replaced.buffer_order);
    lemma_reordered(
        replaced.buffers,
        with_saved_order(replaced.buffers, replaced.buffer_order),
    );
    let tried = replaced.order_tried();
    lemma_sorted_by_permutation(
        tried.buffers,
        |a: BufferView, b: BufferView|
            crate::text::text_le(
                crate::order::connection_of(a.id),
                crate::order::connection_of(b.id),
            ),
    );
    lemma_reordered(tried.buffers, by_connection(tried.buffers));
}

proof fn lemma_list_taken(
    state: AppView,
    prefix: Seq<char>,
    list: Seq<BufferView>,
    hms: Seq<char>,
    ticks: u64,
)
    requires
        distinct_ids(state.buffers),
        distinct_ids(list),
        forall|i: int| 0 <= i < list.len() ==> belongs_to((#[trigger] list[i]).id, prefix),
    ensures
        distinct_ids(state.list_taken(prefix, list, hms, ticks).buffers),
{
    let logged = state.logged(prefix, hms, crate::relay_buffers::list_report(list));
    assert(logged.buffers == state.buffers);
    lemma_list_replaced(logged, prefix, list);
    let together = logged.list_replaced(prefix, list).order_tried().connections_together();
    let unselected = together.thread_unselected();
    assert(unselected.buffers == together.buffers);
    let idle = AppView { pending_buffer_switch: None, ..unselected };
    assert forall|id: Seq<char>| distinct_ids((#[trigger] idle.selecting(id, ticks)).buffers) by {
        lemma_selecting(idle, id, ticks);
    }
    let switched = unselected.listed_switch(ticks);
    assert(distinct_ids(switched.buffers));
    assert forall|id: Seq<char>| distinct_ids((#[trigger] switched.selecting(id, ticks)).buffers) by {
        lemma_selecting(switched, id, ticks);
    }
    let chosen = switched.chat_chosen(prefix, ticks);
    assert(distinct_ids(chosen.buffers));
    assert(chosen.hotlist_asked(prefix, hms).buffers == chosen.buffers);
}

proof fn lemma_snapshot(
    state: AppView,
    prefix: Seq<char>,
    raw_id: Seq<char>,
    requested: Option<usize>,
    lines: Seq<LineView>,
    hms: Seq<char>,
)
    requires
        distinct_ids(state.buffers),
    ensures
        distinct_ids(state.snapshot_taken(prefix, raw_id, requested, lines, hms).buffers),
{
    let id = full_id(prefix, raw_id);
    lemma_last_index(state.buffers, |b: BufferView| b.id == id);
    match buffer_place(state.buffers, id) {
        Some(i) => {
            let put = state.snapshot_put(i, lines);
            assert(distinct_ids(put.buffers));
        },
        None => {},
    }
}

proof fn lemma_nick_event(
    state: AppView,
    prefix: Seq<char>,
    event: Seq<char>,
    resp: WeeChatResponse,
)
    requires
        distinct_ids(state.buffers),
    ensures
        distinct_ids(state.nick_event(prefix, event, resp).buffers),
{
    assert forall|id: Seq<char>, f: spec_fn(BufferView) -> BufferView|
        (forall|b: BufferView| (#[trigger] f(b)).id == b.id) implies distinct_ids(
        (#[trigger] state.changing(id, f)).buffers,
    ) by {
        lemma_changing(state, id, f);
    }
}

proof fn lemma_relay_event(
    state: AppView,
    prefix: Seq<char>,
    event: Seq<char>,
    resp: WeeChatResponse,
    entries: Seq<RelayEntry>,
    clock: Clock,
)
    requires
        distinct_ids(state.buffers),
    ensures
        distinct_ids(state.relay_event(prefix, event, resp, entries, clock).buffers),
{
    lemma_line_entries(state, prefix, resp, entries, clock, body_of(resp).len());
    lemma_change_entries(state, prefix, resp, entries, body_of(resp).len());
    assert forall|id: Seq<char>, change: BufferChange| distinct_ids(
        (#[trigger] state.buffer_changed(id, change)).buffers,
    ) by {
        lemma_changing(state, id, |b: BufferView| changed(b, change));
    }
    lemma_nick_event(state, prefix, event, resp);
    let unread = state.numbered_unread(prefix, resp.buffer_id);
    assert(unread.buffers == state.buffers);
    lemma_hotlist(unread, prefix, resp, clock.hms@);
}

proof fn lemma_hotlist(state: AppView, prefix: Seq<char>, resp: WeeChatResponse, hms: Seq<char>)
    requires
        distinct_ids(state.buffers),
    ensures
        distinct_ids(state.hotlist_taken(prefix, resp, hms).buffers),
{
    let n = body_of(resp).len();
    let logged = state.logged(prefix, hms, crate::relay_counts::hotlist_report(n));
    assert(logged.buffers == state.buffers);
    lemma_hot_entries(logged, prefix, resp, n);
    lemma_hot_entries(state, prefix, resp, n);
}

/// Whether an answer that lists the buffers of a connection lists none twice.
pub open spec fn lists_distinct_ids(
    state: AppView,
    prefix: Seq<char>,
    resp: WeeChatResponse,
    entries: Seq<RelayEntry>,
) -> bool {
    match resp.request_id {
        Some(id) => route(id@) is List ==> distinct_ids(
            state.list_entries(prefix, body_of(resp), entries, body_of(resp).len()),
        ),
        None => true,
    }
}

proof fn lemma_responded(
    state: AppView,
    prefix: Seq<char>,
    resp: WeeChatResponse,
    entries: Seq<RelayEntry>,
    clock: Clock,
)
    requires
        distinct_ids(state.buffers),
        entries.len() == body_of(resp).len(),
        lists_distinct_ids(state, prefix, resp, entries),
    ensures
        distinct_ids(state.responded(prefix, resp, entries, clock).buffers),
{
    let found = match resp.request_id {
        Some(id) => route(id@),
        None => RouteView::Other,
    };
    match found {
        RouteView::Completion(n) => {},
        RouteView::List => {
            lemma_list_entries(state, prefix, body_of(resp), entries, body_of(resp).len());
            lemma_list_taken(
                state,
                prefix,
                state.list_entries(prefix, body_of(resp), entries, body_of(resp).len()),
                clock.hms@,
                clock.ticks,
            );
        },
        RouteView::Hotlist => {
            lemma_hotlist(state, prefix, resp, clock.hms@);
        },
        RouteView::Lines(raw_id, count) => {
            lemma_snapshot(
                state,
                prefix,
                raw_id,
                count,
                snapshot_of(body_of(resp), entries),
                clock.hms@,
            );
        },
        RouteView::Nicks(raw_id) => {
            match resp.body {
                Some(value) => {
                    lemma_changing(
                        state,
                        full_id(prefix, raw_id),
                        |b: BufferView|
                            crate::relay_details::with_nicks(b, crate::tags::nicks_in(value)),
                    );
                },
                None => {},
            }
        },
        RouteView::Info(raw_id) => {
            lemma_info_entries(
                state,
                prefix,
                full_id(prefix, raw_id),
                body_of(resp),
                entries,
                body_of(resp).len(),
            );
        },
        RouteView::Other => {
            match resp.event_name {
                Some(event) => {
                    lemma_relay_event(state, prefix, event@, resp, entries, clock);
                },
                None => {},
            }
        },
    }
}

/// Distinct ids stay distinct, whatever happens, and so the index stays as long
/// as the list and names the place of every buffer. Only a server that hands over
/// all of its buffers at once must not name one twice.
pub proof fn ids_stay_distinct(state: AppView, prefix: Seq<char>, event: BackendEvent, clock: Clock)
    requires
        distinct_ids(state.buffers),
        match event {
            BackendEvent::WeeChat(resp, entries) => entries@.len() == body_of(resp).len()
                && lists_distinct_ids(state, prefix, resp, entries@),
            BackendEvent::BuffersLoaded(list) => distinct_ids(views(list@)),
            _ => true,
        },
    ensures
        ({
            let after = state.handling(prefix, event, clock).buffers;
            &&& distinct_ids(after)
            &&& after.len() <= usize::MAX ==> index_map(after).dom().len() == after.len()
            &&& after.len() <= usize::MAX ==> forall|i: int|
                0 <= i < after.len() ==> index_map(after).contains_key((#[trigger] after[i]).id)
                    && index_map(after)[after[i].id] == i
        }),
{
    lemma_handling(state, prefix, event, clock);
    let after = state.handling(prefix, event, clock).buffers;
    if after.len() <= usize::MAX {
        index_names_every_buffer(after);
    }
}

proof fn lemma_handling(state: AppView, prefix: Seq<char>, event: BackendEvent, clock: Clock)
    requires
        distinct_ids(state.buffers),
        match event {
            BackendEvent::WeeChat(resp, entries) => entries@.len() == body_of(resp).len()
                && lists_distinct_ids(state, prefix, resp, entries@),
            BackendEvent::BuffersLoaded(list) => distinct_ids(views(list@)),
            _ => true,
        },
    ensures
        distinct_ids(state.handling(prefix, event, clock).buffers),
{
    lemma_filter(
        state.buffers,
        |b: BufferView| !belongs_to(b.id, prefix),
    );
    match event {
        BackendEvent::Connected => {
            assert(state.came_up(prefix, clock.hm@).buffers == without_connection(
                state.buffers,
                prefix,
            ));
        },
        BackendEvent::Disconnected => {},
        BackendEvent::AuthError(_) => {},
        BackendEvent::Error(_) => {},
        BackendEvent::ConnLog(_) => {},
        BackendEvent::WeeChat(resp, entries) => {
            lemma_responded(state, prefix, resp, entries@, clock);
        },
        BackendEvent::BufferOpened(b) => {
            let added = state.buffer_added(prefixed(b@, prefix));
            lemma_added(state, prefixed(b@, prefix));
            let id = full_id(prefix, b@.id);
            lemma_selecting(added, id, clock.ticks);
            let awaited = added.awaited_selected(id, clock.ticks);
            let idle = AppView { pending_buffer_switch: None, ..awaited };
            assert forall|other: Seq<char>| distinct_ids(
                (#[trigger] idle.selecting(other, clock.ticks)).buffers,
            ) by {
                lemma_selecting(idle, other, clock.ticks);
            }
        },
        BackendEvent::BufferClosed { buffer_id } => {
            let id = full_id(prefix, buffer_id@);
            lemma_filter(state.buffers, |b: BufferView| b.id != id);
        },
        BackendEvent::BuffersLoaded(list) => {
            let replaced = state.buffers_replaced(prefix, views(list@));
            let new = views(list@).map_values(|b: BufferView| prefixed(b, prefix));
            lemma_prefixed(views(list@), prefix);
            lemma_joined(state.buffers, prefix, new);
            assert forall|id: Seq<char>| distinct_ids(
                (#[trigger] replaced.selecting(id, clock.ticks)).buffers,
            ) by {
                lemma_selecting(replaced, id, clock.ticks);
            }
        },
        BackendEvent::LineAdded { buffer_id, line } => {
            let id = full_id(prefix, buffer_id@);
            lemma_last_index(state.buffers, |b: BufferView| b.id == id);
            match buffer_place(state.buffers, id) {
                Some(i) => {
                    let on_view = state.selected_buffer_id == Some(id);
                    lemma_update(
                        state.buffers,
                        i,
                        with_added_line(state.buffers[i], line@, on_view),
                    );
                },
                None => {},
            }
        },
        BackendEvent::LinesLoaded { buffer_id, lines, is_prepend } => {
            let id = full_id(prefix, buffer_id@);
            let counts = state.selected_buffer_id != Some(id) && state.loading_more_buffer_id
                != Some(id);
            lemma_changing(
                state,
                id,
                |b: BufferView| with_page_taken(b, views(lines@), is_prepend, counts),
            );
        },
        _ => {
            assert forall|id: Seq<char>, change: BufferChange| distinct_ids(
                (#[trigger] state.buffer_changed(id, change)).buffers,
            ) by {
                lemma_changing(state, id, |b: BufferView| changed(b, change));
            }
        },
    }
}

/// A connection that ends takes its buffers with it and leaves all others in
/// their order. A selection among them moves to the first buffer that is left.
pub proof fn ended_connections_leave_no_buffer(state: AppView, prefix: Seq<char>, clock: Clock)
    ensures
        ({
            let after = state.handling(prefix, BackendEvent::Disconnected, clock);
            &&& after.buffers == without_connection(state.buffers, prefix)
            &&& forall|i: int|
                0 <= i < after.buffers.len() ==> !belongs_to((#[trigger] after.buffers[i]).id, prefix)
            &&& match state.selected_buffer_id {
                Some(id) if belongs_to(id, prefix) => after.selected_buffer_id == (
                if after.buffers.len() > 0 {
                    Some(after.buffers[0].id)
                } else {
                    None
                }),
                _ => after.selected_buffer_id == state.selected_buffer_id,
            }
        }),
{
    let p = |b: BufferView| !belongs_to(b.id, prefix);
    let kept = state.buffers.filter(p);
    assert forall|i: int| 0 <= i < kept.len() implies !belongs_to((#[trigger] kept[i]).id, prefix) by {
        state.buffers.lemma_filter_pred(p, i);
    }
}

} // verus!
