//! Reading: buffers on view, markers, older lines and notifications.
use vstd::prelude::*;
use crate::history::{auto_requests, is_exhausted, next_request};
use crate::laws::given::{buffers_are_found_by_id, stands_at};
use crate::laws::writing::{is_owned, owners_are_found};
use crate::markers::{marker_of, marker_place, MarkerView};
use crate::models::{BufferActivity, LineView};
use crate::notify::notification_title;
use crate::seqs::{first_index, last_index, lemma_first_from, lemma_last_index};
use crate::session::backend_of;
use crate::state::{ActionView, AppView};
use crate::text::starts_with;

verus! {

// ---------------------------------------------------------------------------
// Coming to a buffer
// ---------------------------------------------------------------------------

/// A buffer that is selected is on view, with nothing unread and the divider at
/// the last line that was read; its lines and its state are asked for, and the
/// server learns that it was read. All other buffers stay as they are.
pub proof fn selected_buffers_are_on_view(
    state: AppView,
    id: Seq<char>,
    ticks: u64,
    k: int,
    i: int,
    raw_id: Seq<char>,
)
    requires
        stands_at(state.buffers, id, k),
        !state.buffers[k].is_thread(),
        state.selected_buffer_id is None,
        is_owned(state.connections, id, i, raw_id),
    ensures
        ({
            let conn = state.connections[i].prefix;
            let b = state.buffers[k];
            let after = state.selecting(id, ticks);
            let asked = state.outbox.push(ActionView::RefreshBuffer { conn, raw_id }).push(
                ActionView::FetchLines { conn, raw_id, count: 300 },
            );
            &&& after.selected_buffer_id == Some(id)
            &&& after.buffers[k].unread_count == 0
            &&& after.buffers[k].activity == BufferActivity::Idle
            &&& after.buffers[k].visit_start_marker_id == b.last_read_id
            &&& after.buffers[k].messages == b.messages
            &&& !b.has_nicklist ==> after.outbox == asked.push(ActionView::MarkRead { conn, raw_id })
            &&& b.has_nicklist ==> after.outbox == asked.push(
                ActionView::FetchNicks { conn, raw_id },
            ).push(ActionView::MarkRead { conn, raw_id })
            &&& after.cleared_buffer_names.contains(b.full_name)
            &&& b.messages.len() > 0 ==> after.read_markers.contains_key(b.full_name)
            &&& forall|j: int|
                0 <= j < state.buffers.len() && j != k ==> (#[trigger] after.buffers[j])
                    == state.buffers[j]
        }),
{
    buffers_are_found_by_id(state.buffers, id, k);
    owners_are_found(state.connections, id, i, raw_id);
    let on = state.on_view(id, ticks);
    let inside = on.entered(id);
    assert(stands_at(inside.buffers, id, k));
    buffers_are_found_by_id(inside.buffers, id, k);
}

/// An open thread is read beside its room: it has nothing unread, and its lines
/// are asked for where there are none.
pub proof fn open_threads_are_read(
    state: AppView,
    id: Seq<char>,
    k: int,
    i: int,
    raw_id: Seq<char>,
)
    requires
        stands_at(state.buffers, id, k),
        state.buffers[k].is_thread(),
        is_owned(state.connections, id, i, raw_id),
    ensures
        ({
            let conn = state.connections[i].prefix;
            let after = state.opening_thread(id);
            &&& after.open_thread_buffer_id == Some(id)
            &&& after.open_thread_snapshot == Some(state.buffers[k])
            &&& after.buffers[k].unread_count == 0
            &&& after.buffers[k].activity == BufferActivity::Idle
            &&& after.selected_buffer_id == state.selected_buffer_id
            &&& state.buffers[k].messages.len() > 0 ==> after.outbox == state.outbox.push(
                ActionView::MarkRead { conn, raw_id },
            )
            &&& state.buffers[k].messages.len() == 0 ==> after.outbox == state.outbox.push(
                ActionView::FetchLines { conn, raw_id, count: 300 },
            ).push(ActionView::MarkRead { conn, raw_id })
        }),
{
    buffers_are_found_by_id(state.buffers, id, k);
    owners_are_found(state.connections, id, i, raw_id);
    let seen = state.thread_noted(id, state.buffers[k]).with_buffer(
        k,
        crate::session::seen(state.buffers[k]),
    );
    assert(stands_at(seen.buffers, id, k));
    buffers_are_found_by_id(seen.buffers, id, k);
}

/// A closed thread leaves nothing behind.
pub proof fn closed_threads_are_gone(state: AppView)
    ensures
        state.closing_thread().open_thread_buffer_id is None,
        state.closing_thread().open_thread_snapshot is None,
        state.closing_thread().thread_input_text.len() == 0,
        state.closing_thread().buffers == state.buffers,
        state.closing_thread().selected_buffer_id == state.selected_buffer_id,
{
}

// ---------------------------------------------------------------------------
// Markers
// ---------------------------------------------------------------------------

/// A marker is made of the id and the time of its line.
pub proof fn markers_name_their_line(line: LineView)
    ensures
        marker_of(line).line_id == line.id,
        i64::MIN <= line.timestamp.secs * 1_000_000_000 + line.timestamp.nanos <= i64::MAX
            ==> marker_of(line).timestamp_nanos == line.timestamp.secs * 1_000_000_000
            + line.timestamp.nanos,
{
}

/// Of two markers the later one stays.
pub proof fn the_later_marker_stays(a: MarkerView, b: MarkerView)
    ensures
        b.timestamp_nanos > a.timestamp_nanos ==> a.advanced(b) == b,
        b.timestamp_nanos < a.timestamp_nanos ==> a.advanced(b) == a,
{
}

/// A marker is found at its own line, or else at the last line that is not newer
/// than it.
pub proof fn markers_are_found_again(marker: MarkerView, lines: Seq<LineView>, i: int)
    requires
        0 <= i < lines.len(),
    ensures
        lines[i].id == marker.line_id ==> marker.restored(lines) == Some(marker.line_id),
        (forall|j: int| 0 <= j < lines.len() ==> (#[trigger] lines[j]).id != marker.line_id)
            && marker_of(lines[i]).timestamp_nanos <= marker.timestamp_nanos && (forall|j: int|
            i < j < lines.len() ==> marker_of(#[trigger] lines[j]).timestamp_nanos
                > marker.timestamp_nanos) ==> marker.restored(lines) == Some(lines[i].id),
        (forall|j: int|
            0 <= j < lines.len() ==> (#[trigger] lines[j]).id != marker.line_id && marker_of(
                lines[j],
            ).timestamp_nanos > marker.timestamp_nanos) ==> marker.restored(lines) is None,
{
    let p = |l: LineView| l.id == marker.line_id;
    let q = |l: LineView|
        crate::markers::marker_nanos(l.timestamp) <= marker.timestamp_nanos;
    lemma_first_from(lines, p, 0);
    lemma_last_index(lines, q);
    if lines[i].id == marker.line_id {
        assert(p(lines[i]));
    }
    match first_index(lines, p) {
        Some(f) => {
            assert(lines[f].id == marker.line_id);
        },
        None => {
            match last_index(lines, q) {
                Some(l) => {
                    assert(q(lines[l]));
                    assert(marker_of(lines[l]).timestamp_nanos <= marker.timestamp_nanos);
                    if l < i {
                        assert(!q(lines[i]));
                    }
                },
                None => {
                    assert(!q(lines[i]));
                },
            }
        },
    }
}

/// Exactly the lines behind the one that was read last are new.
pub proof fn lines_behind_the_marker_are_new(lines: Seq<LineView>, at: int, i: int)
    requires
        0 <= at < lines.len() <= usize::MAX,
        lines[at].id != "__weechatrs_before_first_loaded_line__"@,
        forall|j: int| 0 <= j < at ==> (#[trigger] lines[j]).id != lines[at].id,
    ensures
        marker_place(lines, lines[at].id).precedes(i) <==> i > at,
        marker_place(lines, "__weechatrs_before_first_loaded_line__"@).precedes(i),
{
    let p = |l: LineView| l.id == lines[at].id;
    lemma_first_from(lines, p, 0);
    assert(p(lines[at]));
    let f = first_index(lines, p)->0;
    if f < at {
        assert(lines[f].id != lines[at].id);
    }
}

// ---------------------------------------------------------------------------
// Older lines
// ---------------------------------------------------------------------------

/// Each request for older lines is for 300 more than there are or were asked
/// for, up to what a buffer may hold.
pub proof fn requests_ask_for_more(current: usize, previous: usize)
    ensures
        ({
            let most = if current > previous {
                current
            } else {
                previous
            };
            &&& most < 300 ==> next_request(current, previous) == Some(600usize)
            &&& 300 <= most <= 9700 ==> next_request(current, previous) == Some(
                (most + 300) as usize,
            )
            &&& 9700 < most < 10_000 ==> next_request(current, previous) == Some(10_000usize)
            &&& most >= 10_000 ==> next_request(current, previous) is None
        }),
{
}

/// There is nothing older where fewer lines came than were asked for, or no
/// more can be held.
pub proof fn short_answers_end_the_history(received: usize, requested: usize)
    ensures
        received < requested ==> is_exhausted(received, requested),
        received >= 10_000 ==> is_exhausted(received, requested),
        requested <= received < 10_000 ==> !is_exhausted(received, requested),
{
}

/// Older lines are asked for by themselves where few are there and none were
/// asked for yet, or where the upper edge was reached again.
pub proof fn short_histories_ask_by_themselves(current: int, attempted: bool)
    ensures
        0 < current < 120 ==> auto_requests(current, false, false),
        current > 0 ==> auto_requests(current, attempted, true),
        current <= 0 ==> !auto_requests(current, attempted, true),
        attempted ==> !auto_requests(current, attempted, false),
        current >= 120 ==> !auto_requests(current, attempted, false),
{
}

/// Whether a buffer belongs to a connection of a kind.
proof fn lemma_backend(state: AppView, id: Seq<char>, i: int, raw_id: Seq<char>)
    requires
        is_owned(state.connections, id, i, raw_id),
    ensures
        backend_of(state.connections, id) == Some(state.connections[i].backend_type),
{
    reveal(backend_of);
    let p = |c: crate::connection::ConnectionView| starts_with(id, c.prefix + "/"@);
    let head = state.connections[i].prefix + "/"@;
    assert(id.subrange(0, head.len() as int) =~= head);
    assert(p(state.connections[i]));
    lemma_first_from(state.connections, p, 0);
    let f = first_index(state.connections, p)->0;
    if f < i {
        assert(!starts_with(id, state.connections[f].prefix + "/"@));
    }
}

/// Whether older lines of a buffer can be asked for.
pub open spec fn can_ask(state: AppView, id: Seq<char>, k: int, i: int, raw_id: Seq<char>) -> bool {
    &&& stands_at(state.buffers, id, k)
    &&& is_owned(state.connections, id, i, raw_id)
    &&& state.loading_more_buffer_id is None
    &&& !state.history_exhausted_buffer_ids.contains(id)
    &&& !state.history_request_counts.contains_key(id)
    &&& 0 < state.buffers[k].messages.len() <= 9000
}

proof fn lemma_asking(
    state: AppView,
    id: Seq<char>,
    k: int,
    i: int,
    raw_id: Seq<char>,
) -> (noted: AppView)
    requires
        can_ask(state, id, k, i, raw_id),
    ensures
        ({
            let b = state.buffers[k];
            let plan = state.older_plan(b, id);
            &&& plan.is_matrix == (b.plugin == "matrix"@)
            &&& plan.is_soju == (state.connections[i].backend_type is Soju)
            &&& plan.is_matrix || plan.is_soju ==> plan.count is None
            &&& !plan.is_matrix && !plan.is_soju ==> plan.count is Some && plan.count->0
                > b.messages.len()
            &&& noted.outbox == state.outbox && noted.loading_more_buffer_id == Some(id)
            &&& noted.owner(id) == Some((state.connections[i].prefix, raw_id))
            &&& state.asking_older(id, id) == noted.older_asked(
                id,
                plan.is_matrix,
                plan.is_soju,
                crate::session::oldest_time(b),
                plan.count,
            )
        }),
{
    buffers_are_found_by_id(state.buffers, id, k);
    owners_are_found(state.connections, id, i, raw_id);
    lemma_backend(state, id, i, raw_id);
    reveal(AppView::older_plan);
    let b = state.buffers[k];
    let n = b.messages.len() as usize;
    requests_ask_for_more(n, n);
    let plan = state.older_plan(b, id);
    state.older_noted(
        id,
        id,
        crate::session::view_anchor(state.buffers, b, id),
    ).count_noted(id, plan.count, plan.is_matrix, plan.current)
}

/// Older lines of a Matrix room are asked for by a command.
pub proof fn older_lines_of_a_room_are_asked_for(
    state: AppView,
    id: Seq<char>,
    k: int,
    i: int,
    raw_id: Seq<char>,
)
    requires
        can_ask(state, id, k, i, raw_id),
        state.buffers[k].plugin == "matrix"@,
    ensures
        state.asking_older(id, id).loading_more_buffer_id == Some(id),
        state.asking_older(id, id).outbox == state.outbox.push(
            ActionView::SendMessage {
                conn: state.connections[i].prefix,
                raw_id,
                text: "/matrix history"@,
            },
        ),
{
    let noted = lemma_asking(state, id, k, i, raw_id);
}

/// A bouncer is asked for the lines before the oldest one that is there.
pub proof fn older_lines_of_a_bouncer_are_asked_for(
    state: AppView,
    id: Seq<char>,
    k: int,
    i: int,
    raw_id: Seq<char>,
    time: Seq<char>,
)
    requires
        can_ask(state, id, k, i, raw_id),
        state.buffers[k].plugin != "matrix"@,
        state.connections[i].backend_type is Soju,
        crate::dates::formatted_time(
            state.buffers[k].messages[0].timestamp,
            "%Y-%m-%dT%H:%M:%S%.3fZ"@,
        ) == Some(time),
    ensures
        state.asking_older(id, id).loading_more_buffer_id == Some(id),
        state.asking_older(id, id).outbox == state.outbox.push(
            ActionView::FetchLinesBefore {
                conn: state.connections[i].prefix,
                raw_id,
                timestamp: time,
            },
        ),
{
    let noted = lemma_asking(state, id, k, i, raw_id);
}

/// A relay is asked for more lines than there are.
pub proof fn older_lines_of_a_relay_are_asked_for(
    state: AppView,
    id: Seq<char>,
    k: int,
    i: int,
    raw_id: Seq<char>,
)
    requires
        can_ask(state, id, k, i, raw_id),
        state.buffers[k].plugin != "matrix"@,
        state.connections[i].backend_type is WeeChat,
    ensures
        state.asking_older(id, id).loading_more_buffer_id == Some(id),
        exists|count: usize|
            count > state.buffers[k].messages.len() && #[trigger] fetches(
                state,
                state.asking_older(id, id),
                state.connections[i].prefix,
                raw_id,
                count,
            ),
{
    let noted = lemma_asking(state, id, k, i, raw_id);
    let count = state.older_plan(state.buffers[k], id).count->0;
    assert(fetches(
        state,
        state.asking_older(id, id),
        state.connections[i].prefix,
        raw_id,
        count,
    ));
}

/// Whether a number of lines was asked for.
pub open spec fn fetches(
    state: AppView,
    after: AppView,
    conn: Seq<char>,
    raw_id: Seq<char>,
    count: usize,
) -> bool {
    after.outbox == state.outbox.push(ActionView::FetchLines { conn, raw_id, count })
}

// ---------------------------------------------------------------------------
// Notifications
// ---------------------------------------------------------------------------

/// A notification names the channel and who spoke in it; a private one names
/// who wrote.
pub proof fn notifications_name_who_spoke(name: Seq<char>, sender: Seq<char>)
    requires
        name.len() > 0,
        sender.len() > 0,
    ensures
        name[0] == '#' || name[0] == '&' || name[0] == '!' ==> notification_title(name, sender)
            == name + " — "@ + sender,
        name[0] != '#' && name[0] != '&' && name[0] != '!' ==> notification_title(name, sender)
            == sender,
{
    reveal_strlit("#");
    reveal_strlit("&");
    reveal_strlit("!");
    assert(name.subrange(0, 1)[0] == name[0]);
    if name[0] == '#' {
        assert(name.subrange(0, 1) =~= "#"@);
    }
    if name[0] == '&' {
        assert(name.subrange(0, 1) =~= "&"@);
    }
    if name[0] == '!' {
        assert(name.subrange(0, 1) =~= "!"@);
    }
}

/// The user is told of a buffer, and not again within three seconds.
pub proof fn notifications_wait_three_seconds(
    state: AppView,
    id: Seq<char>,
    name: Seq<char>,
    prefix: Seq<char>,
    message: Seq<char>,
    ticks: u64,
)
    ensures
        ({
            let after = state.notified(id, name, prefix, message, ticks);
            let told = state.last_notif_at.contains_key(id) && ticks - state.last_notif_at[id]
                < 3_000_000_000;
            &&& told ==> after == state
            &&& !told ==> {
                &&& after.request_attention
                &&& after.last_notif_at.contains_key(id) && after.last_notif_at[id] == ticks
                &&& after.outbox.len() == state.outbox.len() + 1
                &&& after.outbox.last() is Notify
                &&& after.outbox.last()->title == notification_title(
                    name,
                    crate::ansi::stripped(prefix),
                )
                &&& after.outbox.last()->body == crate::ansi::stripped(message)
                &&& after.buffers == state.buffers
            }
        }),
{
}

} // verus!
