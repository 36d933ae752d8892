//! Where one gets: orders of buffers and lines, jumps between buffers.
use vstd::prelude::*;
use crate::laws::given::{buffers_are_found_by_id, stands_at};
use crate::models::{BufferActivity, BufferView, LineView};
use crate::order::{
    buffer_at_or_before, by_saved_rank, chronological, chronological_order_is_stable, distinct_ids,
    natural_order, natural_order_groups_servers, rows, saved_position, saved_rank, with_saved_order,
};
use crate::relay_buffers::ids_of;
use crate::relay_counts::snapshot_report;
use crate::relay_lines::full_id;
use crate::seqs::{first_index, is_total_preorder, lemma_first_from, lemma_sorted_by_sorted};
use crate::state::{buffer_of, AppView};
use crate::text::text_le;

verus! {

// ---------------------------------------------------------------------------
// Orders
// ---------------------------------------------------------------------------

/// Lines that are put in order stand from the earliest to the latest.
pub proof fn lines_stand_by_time(lines: Seq<LineView>, i: int, j: int)
    requires
        0 <= i < j < lines.len(),
    ensures
        ({
            let out = chronological(lines);
            &&& out.len() == lines.len()
            &&& out[i].timestamp.secs <= out[j].timestamp.secs
            &&& out[i].timestamp.secs == out[j].timestamp.secs ==> out[i].timestamp.nanos
                <= out[j].timestamp.nanos
        }),
{
    chronological_order_is_stable(lines);
    let out = chronological(lines);
    assert(crate::order::line_at_or_before(out[i], out[j]));
}

/// Buffers stand by the name of their server, the server itself first, and by
/// their numbers behind it.
pub proof fn buffers_stand_by_server_and_number(buffers: Seq<BufferView>, i: int, j: int)
    requires
        0 <= i < j < natural_order(buffers).len(),
    ensures
        ({
            let a = natural_order(buffers)[i];
            let b = natural_order(buffers)[j];
            let a_leads = a.kind == "server"@ || a.kind == "core"@;
            let b_leads = b.kind == "server"@ || b.kind == "core"@;
            &&& text_le(a.server, b.server)
            &&& a.server == b.server && b_leads ==> a_leads
            &&& a.server == b.server && a_leads == b_leads ==> a.number <= b.number
        }),
{
    natural_order_groups_servers(buffers);
    let out = natural_order(buffers);
    assert(buffer_at_or_before(out[i], out[j]));
    crate::text::lemma_text_le_total(out[i].server, out[j].server);
}

/// Buffers that the user put in order come back in that order, unless servers
/// would be torn apart.
pub proof fn saved_orders_come_back(
    buffers: Seq<BufferView>,
    order: Seq<Seq<char>>,
    i: int,
    j: int,
    p: int,
    q: int,
)
    requires
        0 <= i < j < with_saved_order(buffers, order).len(),
        crate::order::groups_valid(by_saved_rank(buffers, order)),
        0 <= p < order.len(),
        0 <= q < order.len(),
        order.no_duplicates(),
        with_saved_order(buffers, order)[i].id == order[p],
        with_saved_order(buffers, order)[j].id == order[q],
    ensures
        p <= q,
{
    let le = |a: BufferView, b: BufferView|
        saved_rank(buffers, order, a) <= saved_rank(buffers, order, b);
    assert(is_total_preorder(le));
    lemma_sorted_by_sorted(buffers, le);
    let out = with_saved_order(buffers, order);
    assert(le(out[i], out[j]));
    lemma_position(order, order[p], p);
    lemma_position(order, order[q], q);
    assert(saved_rank(buffers, order, out[i]) == p * 10_000);
    assert(saved_rank(buffers, order, out[j]) == q * 10_000);
}

proof fn lemma_position(order: Seq<Seq<char>>, id: Seq<char>, p: int)
    requires
        0 <= p < order.len(),
        order.no_duplicates(),
        order[p] == id,
    ensures
        saved_position(order, id) == Some(p),
{
    let sought = seq![id];
    let at = |o: Seq<char>| o == sought[0];
    lemma_first_from(order, at, 0);
    assert(at(order[p]));
    let k = first_index(order, at)->0;
    assert(order[k] == order[p]);
}

// ---------------------------------------------------------------------------
// Jumps
// ---------------------------------------------------------------------------

proof fn lemma_selecting(state: AppView, id: Seq<char>, ticks: u64)
    requires
        buffer_of(state.buffers, id) is Some ==> !buffer_of(state.buffers, id)->0.is_thread(),
    ensures
        state.selecting(id, ticks).selected_buffer_id == Some(id),
{
}

/// A number leads to the buffer that stands there; a number that none has leads
/// nowhere.
pub proof fn numbers_lead_to_their_buffer(state: AppView, n: int, ticks: u64)
    requires
        distinct_ids(state.buffers),
        forall|j: int|
            0 <= j < state.buffers.len() ==> !(#[trigger] state.buffers[j]).hidden
                && state.buffers[j].matrix_thread_root is None,
    ensures
        1 <= n <= state.buffers.len() ==> state.jumped_to(n, ticks).selected_buffer_id == Some(
            state.buffers[n - 1].id,
        ),
        n > state.buffers.len() ==> state.jumped_to(n, ticks) == state,
{
    let p = |b: BufferView| !b.is_thread() && (!b.hidden || state.show_hidden_buffers);
    assert forall|i: int| 0 <= i < state.buffers.len() implies p(#[trigger] state.buffers[i]) by {}
    lemma_filter_whole(state.buffers, p);
    assert(state.numbered() == state.buffers);
    if 1 <= n <= state.buffers.len() {
        let id = state.buffers[n - 1].id;
        assert forall|j: int| 0 <= j < n - 1 implies (#[trigger] state.buffers[j]).id != id by {
            assert(state.buffers[j].id != state.buffers[n - 1].id);
        }
        lemma_found(state.buffers, n - 1);
        lemma_selecting(state, id, ticks);
    }
}

proof fn lemma_filter_whole<A>(s: Seq<A>, p: spec_fn(A) -> bool)
    requires
        forall|i: int| 0 <= i < s.len() ==> p(#[trigger] s[i]),
    ensures
        s.filter(p) == s,
    decreases s.len(),
{
    reveal(Seq::filter);
    if s.len() > 0 {
        let front = s.drop_last();
        assert forall|i: int| 0 <= i < front.len() implies p(#[trigger] front[i]) by {
            assert(front[i] == s[i]);
        }
        lemma_filter_whole(front, p);
        assert(p(s[s.len() - 1]));
        assert(front.push(s.last()) =~= s);
    } else {
        assert(s.filter(p) =~= s);
    }
}

proof fn lemma_found(buffers: Seq<BufferView>, k: int)
    requires
        distinct_ids(buffers),
        0 <= k < buffers.len(),
    ensures
        stands_at(buffers, buffers[k].id, k),
        buffer_of(buffers, buffers[k].id) == Some(buffers[k]),
        first_index(buffers, |b: BufferView| b.id == buffers[k].id) == Some(k),
{
    assert(stands_at(buffers, buffers[k].id, k));
    buffers_are_found_by_id(buffers, buffers[k].id, k);
}

/// Hidden buffers have no number unless they are shown, and threads have none.
pub proof fn numbered_buffers_can_be_seen(state: AppView, i: int)
    requires
        0 <= i < state.numbered().len(),
    ensures
        state.buffers.contains(state.numbered()[i]),
        state.numbered()[i].hidden ==> state.show_hidden_buffers,
        !state.numbered()[i].is_thread(),
{
    let p = |b: BufferView| !b.is_thread() && (!b.hidden || state.show_hidden_buffers);
    lemma_filter_from(state.buffers, p, i);
}

proof fn lemma_filter_from<A>(s: Seq<A>, p: spec_fn(A) -> bool, i: int)
    requires
        0 <= i < s.filter(p).len(),
    ensures
        s.contains(s.filter(p)[i]),
        p(s.filter(p)[i]),
    decreases s.len(),
{
    reveal(Seq::filter);
    let front = s.drop_last();
    if i < front.filter(p).len() {
        lemma_filter_from(front, p, i);
        let k = choose|k: int| 0 <= k < front.len() && front[k] == front.filter(p)[i];
        assert(s[k] == s.filter(p)[i]);
    } else {
        assert(s[s.len() - 1] == s.filter(p)[i]);
    }
}

/// A step forward leads to the next buffer, one back to the one before, and
/// from either end to the other.
pub proof fn steps_lead_to_the_neighbour(state: AppView, k: int, ticks: u64)
    requires
        distinct_ids(state.buffers),
        forall|j: int|
            0 <= j < state.buffers.len() ==> (#[trigger] state.buffers[j]).matrix_thread_root
                is None,
        0 <= k < state.buffers.len(),
        state.selected_buffer_id == Some(state.buffers[k].id),
    ensures
        k + 1 < state.buffers.len() ==> state.buffer_cycled(1, ticks).selected_buffer_id == Some(
            state.buffers[k + 1].id,
        ),
        k + 1 == state.buffers.len() ==> state.buffer_cycled(1, ticks).selected_buffer_id == Some(
            state.buffers[0].id,
        ),
        k > 0 ==> state.buffer_cycled(-1, ticks).selected_buffer_id == Some(
            state.buffers[k - 1].id,
        ),
        k == 0 ==> state.buffer_cycled(-1, ticks).selected_buffer_id == Some(
            state.buffers.last().id,
        ),
{
    let n = state.buffers.len() as int;
    let p = |b: BufferView| !b.is_thread();
    lemma_filter_whole(state.buffers, p);
    assert(rows(state.buffers) == state.buffers);
    let ids = ids_of(state.buffers);
    assert forall|i: int, j: int| 0 <= i < ids.len() && 0 <= j < ids.len() && i != j implies ids[i]
        != ids[j] by {
        assert(state.buffers[i].id != state.buffers[j].id);
    }
    lemma_position(ids, ids[k], k);
    let next = if k + 1 < n {
        k + 1
    } else {
        0
    };
    let prior = if k > 0 {
        k - 1
    } else {
        n - 1
    };
    assert((k + 1) % n == next) by (nonlinear_arith)
        requires
            0 <= k < n,
            next == (if k + 1 < n {
                k + 1
            } else {
                0int
            }),
    ;
    assert((k + (-1)) % n == prior) by (nonlinear_arith)
        requires
            0 <= k < n,
            prior == (if k > 0 {
                k - 1
            } else {
                n - 1
            }),
    ;
    lemma_found(state.buffers, next);
    lemma_found(state.buffers, prior);
    lemma_selecting(state, ids[next], ticks);
    lemma_selecting(state, ids[prior], ticks);
}

/// Whether a buffer has something to be read.
pub open spec fn has_news(b: BufferView) -> bool {
    b.unread_count > 0 || b.activity != BufferActivity::Idle
}

proof fn lemma_unread_from(state: AppView, start: int, i: int)
    requires
        0 <= start < state.buffers.len(),
        1 <= i,
    ensures
        match state.unread_from(start, i) {
            Some(k) => 0 <= k < state.buffers.len() && has_news(state.buffers[k]),
            None => forall|j: int|
                i <= j <= state.buffers.len() ==> !state.is_unread_stop(
                    #[trigger] state.buffers[(start + j) % state.buffers.len() as int],
                ),
        },
    decreases state.buffers.len() + 1 - i,
{
    if i <= state.buffers.len() {
        let n = state.buffers.len() as int;
        vstd::arithmetic::div_mod::lemma_mod_bound(start + i, n);
        if !state.is_unread_stop(state.buffers[(start + i) % n]) {
            lemma_unread_from(state, start, i + 1);
        }
    }
}

/// Where only one buffer has something to be read, the jump leads there.
pub proof fn jumps_lead_to_what_is_unread(state: AppView, k: int, ticks: u64)
    requires
        distinct_ids(state.buffers),
        0 <= k < state.buffers.len(),
        has_news(state.buffers[k]),
        !state.buffers[k].hidden,
        forall|j: int|
            0 <= j < state.buffers.len() ==> (#[trigger] state.buffers[j]).matrix_thread_root
                is None,
        forall|j: int| 0 <= j < state.buffers.len() && has_news(#[trigger] state.buffers[j]) ==> j == k,
    ensures
        state.jumped_to_unread(ticks).selected_buffer_id == Some(state.buffers[k].id),
{
    let n = state.buffers.len() as int;
    let start = match state.selected_buffer_id {
        Some(id) => match first_index(state.buffers, |b: BufferView| b.id == id) {
            Some(i) => i,
            None => 0,
        },
        None => 0,
    };
    if state.selected_buffer_id is Some {
        let id = state.selected_buffer_id->0;
        lemma_first_from(state.buffers, |b: BufferView| b.id == id, 0);
    }
    lemma_unread_from(state, start, 1);
    let steps = if k > start {
        k - start
    } else {
        k - start + n
    };
    assert((start + steps) % n == k) by (nonlinear_arith)
        requires
            0 <= k < n,
            start + steps == k || start + steps == k + n,
    ;
    assert(state.is_unread_stop(state.buffers[(start + steps) % n]));
    lemma_found(state.buffers, k);
    lemma_selecting(state, state.buffers[k].id, ticks);
}

/// Where nothing is unread, the jump leads nowhere.
pub proof fn without_news_no_jump(state: AppView, ticks: u64)
    requires
        state.buffers.len() > 0,
        forall|j: int| 0 <= j < state.buffers.len() ==> !has_news(#[trigger] state.buffers[j]),
    ensures
        state.jumped_to_unread(ticks) == state,
{
    let start = match state.selected_buffer_id {
        Some(id) => match first_index(state.buffers, |b: BufferView| b.id == id) {
            Some(i) => i,
            None => 0,
        },
        None => 0,
    };
    if state.selected_buffer_id is Some {
        let id = state.selected_buffer_id->0;
        lemma_first_from(state.buffers, |b: BufferView| b.id == id, 0);
    }
    lemma_unread_from(state, start, 1);
}

// ---------------------------------------------------------------------------
// Snapshots
// ---------------------------------------------------------------------------

proof fn lemma_logged(state: AppView, prefix: Seq<char>, hms: Seq<char>, message: Seq<char>)
    ensures
        state.logged(prefix, hms, message).buffers == state.buffers,
        state.logged(prefix, hms, message).selected_buffer_id == state.selected_buffer_id,
        state.logged(prefix, hms, message).loading_more_buffer_id == state.loading_more_buffer_id,
{
}

/// The lines that a relay answers with are those of the buffer they were asked
/// for; a buffer on view is read up to the last of them.
#[verifier::rlimit(60)]
#[verifier::spinoff_prover]
pub proof fn answered_lines_fill_their_buffer(
    state: AppView,
    prefix: Seq<char>,
    raw_id: Seq<char>,
    id: Seq<char>,
    requested: Option<usize>,
    lines: Seq<LineView>,
    hms: Seq<char>,
    k: int,
)
    requires
        id == full_id(prefix, raw_id),
        stands_at(state.buffers, id, k),
    ensures
        ({
            let after = state.snapshot_taken(prefix, raw_id, requested, lines, hms);
            &&& after.buffers.len() == state.buffers.len()
            &&& after.buffers[k].messages == lines
            &&& after.buffers[k].id == id
            &&& after.buffers[k].unread_count == state.buffers[k].unread_count
            &&& after.buffers[k].activity == state.buffers[k].activity
            &&& after.loading_more_buffer_id is Some ==> after.loading_more_buffer_id->0 != id
            &&& forall|j: int|
                0 <= j < state.buffers.len() && j != k ==> #[trigger] after.buffers[j]
                    == state.buffers[j]
            &&& state.selected_buffer_id == Some(id) && lines.len() > 0
                ==> after.buffers[k].last_read_id == Some(lines.last().id)
            &&& state.selected_buffer_id != Some(id) && !state.read_markers.contains_key(
                state.buffers[k].full_name,
            ) && state.buffers[k].last_read_id is Some ==> after.buffers[k].last_read_id
                == state.buffers[k].last_read_id
        }),
{
    buffers_are_found_by_id(state.buffers, id, k);
    lemma_put(state, k, lines);
    let b = state.buffers[k];
    let is_load_more = state.loading_more_buffer_id == Some(id);
    let ended = state.snapshot_put(k, lines).loading_ended(id);
    let report = snapshot_report(raw_id, lines.len(), is_load_more, b.name);
    lemma_logged(ended, prefix, hms, report);
    lemma_logged(ended.exhausted_noted(id), prefix, hms, report);
}

proof fn lemma_put(state: AppView, k: int, lines: Seq<LineView>)
    requires
        0 <= k < state.buffers.len(),
    ensures
        ({
            let after = state.snapshot_put(k, lines);
            let id = state.buffers[k].id;
            &&& after.buffers.len() == state.buffers.len()
            &&& after.buffers[k].messages == lines
            &&& after.buffers[k].id == id
            &&& after.buffers[k].unread_count == state.buffers[k].unread_count
            &&& after.buffers[k].activity == state.buffers[k].activity
            &&& forall|j: int|
                0 <= j < state.buffers.len() && j != k ==> #[trigger] after.buffers[j]
                    == state.buffers[j]
            &&& state.selected_buffer_id == Some(id) && lines.len() > 0
                ==> after.buffers[k].last_read_id == Some(lines.last().id)
            &&& state.selected_buffer_id != Some(id) && !state.read_markers.contains_key(
                state.buffers[k].full_name,
            ) && state.buffers[k].last_read_id is Some ==> after.buffers[k].last_read_id
                == state.buffers[k].last_read_id
        }),
{
}

} // verus!
