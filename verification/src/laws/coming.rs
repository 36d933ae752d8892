//! What comes: opened buffers, lists of buffers, pages of lines.
use vstd::prelude::*;
use crate::backend::{counted, prefixed, with_page};
use crate::json::{Json, JsonMember};
use crate::laws::given::{buffers_are_found_by_id, reading_gives_what_is_said, says, stands_at};
use crate::models::{BufferActivity, BufferView, LineView};
use crate::order::natural_order;
use crate::relay_buffers::{belongs_to, by_connection, without_connection};
use crate::rooms::is_restorable;
use crate::seqs::{
    first_index, is_total_preorder, lemma_first_from, lemma_last_index, lemma_sorted_by_permutation,
    lemma_sorted_by_sorted,
};
use crate::state::{AppView, RelayEntry};
use crate::text::{ends_with, starts_with, text_le};

verus! {

// ---------------------------------------------------------------------------
// Buffers
// ---------------------------------------------------------------------------

/// A buffer that a server opened stands last, under the name of its connection,
/// with all that it holds; one that is there already is not added again.
pub proof fn opened_buffers_are_there(state: AppView, prefix: Seq<char>, b: BufferView, ticks: u64)
    requires
        state.selected_buffer_id is Some,
        state.pending_buffer_switch is None,
    ensures
        ({
            let id = prefix + "/"@ + b.id;
            let after = state.buffer_opened(prefix, b, ticks);
            let fresh = forall|j: int| 0 <= j < state.buffers.len() ==> (
            #[trigger] state.buffers[j]).id != id;
            &&& fresh ==> after.buffers.len() == state.buffers.len() + 1 && after.buffers.last().id
                == id && after.buffers.last().full_name == prefix + "/"@ + b.full_name
                && after.buffers.last().name == b.name && after.buffers.last().messages == b.messages
                && after.buffers.last().kind == b.kind && after.buffers.drop_last()
                == state.buffers
            &&& !fresh ==> after.buffers == state.buffers
            &&& after.selected_buffer_id == state.selected_buffer_id
        }),
{
    let id = prefix + "/"@ + b.id;
    lemma_last_index(state.buffers, |c: BufferView| c.id == id);
    assert(state.buffers.push(prefixed(b, prefix)).drop_last() =~= state.buffers);
}

/// A buffer that was asked for by name is selected once it is there.
pub proof fn awaited_buffers_are_selected(state: AppView, target: Seq<char>, k: int, ticks: u64)
    requires
        state.pending_buffer_switch == Some(target),
        0 <= k < state.buffers.len(),
        state.buffers[k].name == target,
        forall|j: int|
            0 <= j < state.buffers.len() && j != k ==> (#[trigger] state.buffers[j]).name != target
                && state.buffers[j].id != target && state.buffers[j].id != state.buffers[k].id
                && !ends_with(state.buffers[j].full_name, target),
        !state.buffers[k].is_thread(),
    ensures
        state.opened_switch(ticks).selected_buffer_id == Some(state.buffers[k].id),
        state.opened_switch(ticks).pending_buffer_switch is None,
        state.listed_switch(ticks).selected_buffer_id == Some(state.buffers[k].id),
        state.listed_switch(ticks).pending_buffer_switch is None,
{
    let p = |b: BufferView| b.name == target || b.id == target || ends_with(b.full_name, target);
    let q = |b: BufferView| b.name == target || ends_with(b.full_name, target);
    lemma_first_from(state.buffers, p, 0);
    lemma_first_from(state.buffers, q, 0);
    assert(p(state.buffers[k]) && q(state.buffers[k]));
    let id = state.buffers[k].id;
    assert(stands_at(state.buffers, id, k)) by {
        assert forall|j: int| 0 <= j < state.buffers.len() && j != k implies (
        #[trigger] state.buffers[j]).id != id by {}
    }
    buffers_are_found_by_id(state.buffers, id, k);
    let rid = AppView { pending_buffer_switch: None, ..state };
    assert(rid.buffers == state.buffers);
    lemma_selected(rid, id, ticks);
}

proof fn lemma_selected(state: AppView, id: Seq<char>, ticks: u64)
    requires
        crate::state::buffer_of(state.buffers, id) is Some
            ==> !crate::state::buffer_of(state.buffers, id)->0.is_thread(),
    ensures
        state.selecting(id, ticks).selected_buffer_id == Some(id),
        state.selecting(id, ticks).pending_buffer_switch == state.pending_buffer_switch,
{
}

/// The conversation of last time is selected when it opens, and no other is,
/// while nothing is selected.
pub proof fn the_last_conversation_is_awaited(state: AppView, id: Seq<char>, k: int, ticks: u64)
    requires
        stands_at(state.buffers, id, k),
        state.selected_buffer_id is None,
        is_restorable(state.buffers[k]),
    ensures
        state.last_chat_buffer_name is None || state.last_chat_buffer_name == Some(
            state.buffers[k].full_name,
        ) ==> state.awaited_selected(id, ticks).selected_buffer_id == Some(id),
        state.last_chat_buffer_name is Some && state.last_chat_buffer_name->0
            != state.buffers[k].full_name ==> state.awaited_selected(id, ticks) == state,
{
    buffers_are_found_by_id(state.buffers, id, k);
    lemma_selected(state, id, ticks);
}

/// What a server lists takes the place of what it had; the buffers of other
/// connections stay.
pub proof fn listed_buffers_replace_the_old(
    state: AppView,
    prefix: Seq<char>,
    list: Seq<BufferView>,
    i: int,
    j: int,
)
    ensures
        0 <= i < list.len() ==> exists|k: int|
            0 <= k < state.buffers_replaced(prefix, list).buffers.len() && (
            #[trigger] state.buffers_replaced(prefix, list).buffers[k]).id == prefix + "/"@
                + list[i].id && state.buffers_replaced(prefix, list).buffers[k].messages
                == list[i].messages,
        0 <= j < state.buffers.len() && !starts_with(state.buffers[j].id, prefix + "/"@)
            ==> state.buffers_replaced(prefix, list).buffers.contains(state.buffers[j]),
        0 <= j < state.buffers.len() && !starts_with(state.buffers[j].id, prefix + "/"@)
            ==> state.list_replaced(prefix, list).buffers.contains(state.buffers[j]),
        0 <= i < list.len() ==> state.list_replaced(prefix, list).buffers.contains(list[i]),
{
    let p = |b: BufferView| !belongs_to(b.id, prefix);
    let kept = without_connection(state.buffers, prefix);
    let new = state.buffers_replaced(prefix, list).buffers;
    let told = state.list_replaced(prefix, list).buffers;
    if 0 <= i < list.len() {
        let k = kept.len() as int + i;
        assert(new[k] == prefixed(list[i], prefix));
        assert(new[k].id == prefix + "/"@ + list[i].id);
        let le = |a: BufferView, b: BufferView| crate::order::buffer_at_or_before(a, b);
        lemma_sorted_by_permutation(list, le);
        lemma_in_both(list, natural_order(list), i);
        let m = choose|m: int| 0 <= m < natural_order(list).len() && natural_order(list)[m] == list[i];
        assert(told[kept.len() as int + m] == list[i]);
    }
    if 0 <= j < state.buffers.len() && p(state.buffers[j]) {
        state.buffers.lemma_filter_contains(p, j);
        let k = choose|k: int| 0 <= k < kept.len() && kept[k] == state.buffers[j];
        assert(new[k] == state.buffers[j]);
        assert(told[k] == state.buffers[j]);
    }
}

proof fn lemma_in_both<A>(s: Seq<A>, t: Seq<A>, i: int)
    requires
        s.to_multiset() == t.to_multiset(),
        0 <= i < s.len(),
    ensures
        t.contains(s[i]),
{
    broadcast use vstd::seq_lib::group_to_multiset_ensures;

    assert(s.contains(s[i]));
    assert(s.to_multiset().count(s[i]) > 0);
}

/// Nothing of a connection is left once its buffers are dropped.
pub proof fn dropped_connections_leave_nothing(state: AppView, prefix: Seq<char>, i: int)
    requires
        0 <= i < state.buffers_dropped(prefix).buffers.len(),
    ensures
        !starts_with(state.buffers_dropped(prefix).buffers[i].id, prefix + "/"@),
{
    let p = |b: BufferView| !belongs_to(b.id, prefix);
    state.buffers.lemma_filter_pred(p, i);
}

/// Every entry of a list becomes a buffer of its connection.
pub proof fn listed_entries_become_buffers(
    state: AppView,
    prefix: Seq<char>,
    vec: Vec<JsonMember>,
    entry: RelayEntry,
    id: Seq<char>,
    name: Seq<char>,
)
    requires
        says(vec@, "id"@, id),
        says(vec@, "name"@, name),
    ensures
        ({
            let b = state.list_entry(prefix, Json::Object(vec), entry);
            &&& b is Some
            &&& b->0.id == prefix + "/"@ + id
            &&& b->0.full_name == prefix + "/"@ + name
            &&& b->0.muted == state.muted_buffer_names.contains(prefix + "/"@ + name)
        }),
{
    reading_gives_what_is_said(vec@, "id"@, id, id);
    reading_gives_what_is_said(vec@, "name"@, name, crate::relay_buffers::listed_name(vec@));
}

/// The buffers of one connection stand together.
pub proof fn connections_stand_in_order(buffers: Seq<BufferView>, i: int, j: int)
    requires
        0 <= i < j < by_connection(buffers).len(),
    ensures
        text_le(
            crate::order::connection_of(by_connection(buffers)[i].id),
            crate::order::connection_of(by_connection(buffers)[j].id),
        ),
{
    let le = |a: BufferView, b: BufferView|
        text_le(crate::order::connection_of(a.id), crate::order::connection_of(b.id));
    assert(is_total_preorder(le)) by {
        assert forall|a: BufferView, b: BufferView| #[trigger] le(a, b) || le(b, a) by {
            crate::text::lemma_text_le_total(
                crate::order::connection_of(a.id),
                crate::order::connection_of(b.id),
            );
        }
        assert forall|a: BufferView, b: BufferView, c: BufferView| #[trigger]
            le(a, b) && #[trigger] le(b, c) implies le(a, c) by {
            crate::text::lemma_text_le_transitive(
                crate::order::connection_of(a.id),
                crate::order::connection_of(b.id),
                crate::order::connection_of(c.id),
            );
        }
    }
    lemma_sorted_by_sorted(buffers, le);
    let out = by_connection(buffers);
    assert(le(out[i], out[j]));
}

/// The selection leaves a thread for the room that the thread is in.
pub proof fn selected_threads_give_way_to_their_room(
    state: AppView,
    id: Seq<char>,
    k: int,
    room: Seq<char>,
    i: int,
)
    requires
        state.selected_buffer_id == Some(id),
        stands_at(state.buffers, id, k),
        state.buffers[k].is_thread(),
        state.buffers[k].matrix_room_id == Some(room),
        0 <= i < state.buffers.len(),
        state.buffers[i].matrix_room_id == Some(room),
        state.buffers[i].matrix_thread_root is None,
        forall|j: int|
            0 <= j < i ==> (#[trigger] state.buffers[j]).matrix_thread_root is Some
                && state.buffers[j].plugin == "matrix"@ || state.buffers[j].matrix_room_id
                != Some(room),
    ensures
        state.thread_unselected().selected_buffer_id == Some(state.buffers[i].id),
{
    buffers_are_found_by_id(state.buffers, id, k);
    let p = |b: BufferView| !b.is_thread() && b.matrix_room_id == Some(room);
    lemma_first_from(state.buffers, p, 0);
    assert(p(state.buffers[i]));
    let n = first_index(state.buffers, p)->0;
    if n < i {
        assert(p(state.buffers[n]));
    }
}

// ---------------------------------------------------------------------------
// Pages
// ---------------------------------------------------------------------------

/// Older lines stand before what is there, newer ones behind it.
pub proof fn pages_stand_where_they_belong(b: BufferView, page: Seq<LineView>, i: int)
    requires
        b.messages.len() + page.len() <= 10_000,
    ensures
        with_page(b, page, false).messages == b.messages + page,
        0 <= i < b.messages.len() ==> with_page(b, page, true).messages[with_page(
            b,
            page,
            true,
        ).messages.len() - b.messages.len() + i] == b.messages[i],
        with_page(b, page, true).messages.len() <= b.messages.len() + page.len(),
        b.messages.len() == 0 ==> with_page(b, page, true).messages == page,
        with_page(b, page, true).unread_count == b.unread_count,
{
    let p = |l: LineView| !crate::lines::line_is_known(b.messages, l.id);
    page.lemma_filter_len(p);
    let new = crate::lines::unknown_lines(b.messages, page);
    assert(new.len() <= page.len());
    if b.messages.len() == 0 {
        assert forall|j: int| 0 <= j < page.len() implies p(#[trigger] page[j]) by {}
        lemma_filter_all(page, p);
        assert(new + b.messages =~= page);
    }
}

proof fn lemma_filter_all<A>(s: Seq<A>, p: spec_fn(A) -> bool)
    requires
        forall|i: int| 0 <= i < s.len() ==> p(#[trigger] s[i]),
    ensures
        s.filter(p) == s,
    decreases s.len(),
{
    reveal(Seq::filter);
    if s.len() > 0 {
        let front = s.drop_last();
        assert forall|i: int| 0 <= i < front.len() implies p(#[trigger] front[i]) by {
            assert(front[i] == s[i]);
        }
        lemma_filter_all(front, p);
        assert(p(s[s.len() - 1]));
        assert(front.push(s.last()) =~= s);
    } else {
        assert(s.filter(p) =~= s);
    }
}

/// Ordinary lines of a page count one each; hidden ones do not.
pub proof fn lines_of_a_page_count(unread: u32, lines: Seq<LineView>)
    requires
        unread + lines.len() <= u32::MAX,
    ensures
        (forall|i: int| 0 <= i < lines.len() ==> (#[trigger] lines[i]).displayed && !lines[i].highlight)
            ==> counted(BufferActivity::Idle, unread, lines, None).1 == unread + lines.len() && (
        lines.len() > 0 ==> counted(BufferActivity::Idle, unread, lines, None).0
            == BufferActivity::Message),
        (forall|i: int| 0 <= i < lines.len() ==> !(#[trigger] lines[i]).displayed) ==> counted(
            BufferActivity::Idle,
            unread,
            lines,
            None,
        ) == (BufferActivity::Idle, unread),
        (exists|i: int| 0 <= i < lines.len() && (#[trigger] lines[i]).displayed && lines[i].highlight)
            ==> counted(BufferActivity::Idle, unread, lines, None).0 == BufferActivity::Highlight,
    decreases lines.len(),
{
    if lines.len() > 0 {
        let front = lines.drop_last();
        lines_of_a_page_count(unread, front);
        assert forall|i: int| 0 <= i < front.len() implies front[i] == #[trigger] lines[i] by {}
        if forall|i: int|
            0 <= i < lines.len() ==> (#[trigger] lines[i]).displayed && !lines[i].highlight {
            assert forall|i: int| 0 <= i < front.len() implies (#[trigger] front[i]).displayed
                && !front[i].highlight by {
                assert(lines[i].displayed);
            }
            assert(lines[lines.len() - 1].displayed);
            if front.len() == 0 {
                assert(counted(BufferActivity::Idle, unread, front, None).0 == BufferActivity::Idle);
            }
        }
        if forall|i: int| 0 <= i < lines.len() ==> !(#[trigger] lines[i]).displayed {
            assert forall|i: int| 0 <= i < front.len() implies !(#[trigger] front[i]).displayed by {
                assert(!lines[i].displayed);
            }
            assert(!lines[lines.len() - 1].displayed);
        }
        if exists|i: int|
            0 <= i < lines.len() && (#[trigger] lines[i]).displayed && lines[i].highlight {
            let i = choose|i: int|
                0 <= i < lines.len() && (#[trigger] lines[i]).displayed && lines[i].highlight;
            if i < front.len() {
                assert(front[i].displayed && front[i].highlight);
            }
        }
    }
}

/// Lines up to the time when a buffer was read do not count.
pub proof fn read_lines_do_not_count(
    activity: BufferActivity,
    unread: u32,
    line: LineView,
    read: crate::time::Timestamp,
)
    requires
        line.timestamp.secs < read.secs,
    ensures
        counted(activity, unread, seq![line], Some(read)) == (activity, unread),
{
    let lines = seq![line];
    assert(lines.drop_last() =~= Seq::empty());
    assert(lines.last() == line);
    assert(counted(activity, unread, lines.drop_last(), Some(read)) == (activity, unread));
}

} // verus!
