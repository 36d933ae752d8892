//! What the events of a connection change.
use vstd::prelude::*;
use crate::backend::BackendEvent;
use crate::events::{nick_rank_le, same_letters};
use crate::laws::given::{buffers_are_found_by_id, stands_at};
use crate::lines::line_is_known;
use crate::models::{BufferActivity, BufferView, Line, LineView, Nick, NickView, WeeChatResponse};
use crate::seqs::{first_index, lemma_first_from, lemma_sorted_by_permutation, views};
use crate::state::{ActionView, AppView, Clock, RelayEntry, MAX_STORED_LINES};
use crate::text::{ascii_lowercase, contains, decimal_int};
use crate::time::Timestamp;

verus! {

/// Whether only the buffer at a place changed.
pub open spec fn only_changes(state: AppView, after: AppView, k: int) -> bool {
    &&& after.buffers.len() == state.buffers.len()
    &&& after.buffers[k].id == state.buffers[k].id
    &&& forall|j: int|
        0 <= j < state.buffers.len() && j != k ==> (#[trigger] after.buffers[j])
            == state.buffers[j]
}

/// A topic becomes what it was changed to.
pub proof fn topics_change(
    state: AppView,
    conn: Seq<char>,
    buffer_id: String,
    topic: String,
    clock: Clock,
    k: int,
)
    requires
        stands_at(state.buffers, conn + "/"@ + buffer_id@, k),
    ensures
        ({
            let after = state.handling(conn, BackendEvent::TopicChanged { buffer_id, topic }, clock);
            &&& only_changes(state, after, k)
            &&& after.buffers[k].topic == topic@
            &&& after.buffers[k].messages == state.buffers[k].messages
        }),
{
    buffers_are_found_by_id(state.buffers, conn + "/"@ + buffer_id@, k);
}

/// A buffer is hidden where it was hidden, and shown where it was shown.
pub proof fn buffers_are_hidden_and_shown(
    state: AppView,
    conn: Seq<char>,
    buffer_id: String,
    hidden: bool,
    clock: Clock,
    k: int,
)
    requires
        stands_at(state.buffers, conn + "/"@ + buffer_id@, k),
    ensures
        ({
            let after = state.handling(
                conn,
                BackendEvent::BufferHidden { buffer_id, hidden },
                clock,
            );
            only_changes(state, after, k) && after.buffers[k].hidden == hidden
        }),
{
    buffers_are_found_by_id(state.buffers, conn + "/"@ + buffer_id@, k);
}

/// A buffer counts what the server counts.
pub proof fn activity_is_taken_over(
    state: AppView,
    conn: Seq<char>,
    buffer_id: String,
    activity: BufferActivity,
    unread_count: u32,
    markread_ts: Option<Timestamp>,
    clock: Clock,
    k: int,
)
    requires
        stands_at(state.buffers, conn + "/"@ + buffer_id@, k),
    ensures
        ({
            let after = state.handling(
                conn,
                BackendEvent::ActivityChanged { buffer_id, activity, unread_count, markread_ts },
                clock,
            );
            &&& only_changes(state, after, k)
            &&& after.buffers[k].activity == activity
            &&& after.buffers[k].unread_count == unread_count
            &&& markread_ts is Some ==> after.buffers[k].last_markread_ts == markread_ts
            &&& markread_ts is None ==> after.buffers[k].last_markread_ts
                == state.buffers[k].last_markread_ts
        }),
{
    buffers_are_found_by_id(state.buffers, conn + "/"@ + buffer_id@, k);
}

/// A new nick is there behind the others, and once.
pub proof fn new_nicks_are_there(
    state: AppView,
    conn: Seq<char>,
    buffer_id: String,
    nick: Nick,
    clock: Clock,
    k: int,
)
    requires
        stands_at(state.buffers, conn + "/"@ + buffer_id@, k),
    ensures
        ({
            let nicks = state.buffers[k].nicks;
            let after = state.handling(conn, BackendEvent::NickAdded { buffer_id, nick }, clock);
            &&& only_changes(state, after, k)
            &&& (forall|i: int| 0 <= i < nicks.len() ==> (#[trigger] nicks[i]).name != nick@.name)
                ==> after.buffers[k].nicks == nicks.push(nick@)
            &&& (exists|i: int| 0 <= i < nicks.len() && (#[trigger] nicks[i]).name == nick@.name)
                ==> after.buffers[k].nicks == nicks
        }),
{
    buffers_are_found_by_id(state.buffers, conn + "/"@ + buffer_id@, k);
    let nicks = state.buffers[k].nicks;
    let p = |n: NickView| n.name == nick@.name;
    lemma_first_from(nicks, p, 0);
    if exists|i: int| 0 <= i < nicks.len() && (#[trigger] nicks[i]).name == nick@.name {
        let i = choose|i: int| 0 <= i < nicks.len() && (#[trigger] nicks[i]).name == nick@.name;
        assert(p(nicks[i]));
    }
}

/// A nick that went is gone, whatever the case of its letters; all others stay.
pub proof fn departed_nicks_are_gone(
    state: AppView,
    conn: Seq<char>,
    buffer_id: String,
    nick_name: String,
    clock: Clock,
    k: int,
    i: int,
)
    requires
        stands_at(state.buffers, conn + "/"@ + buffer_id@, k),
    ensures
        ({
            let nicks = state.buffers[k].nicks;
            let left = state.handling(
                conn,
                BackendEvent::NickRemoved { buffer_id, nick_name },
                clock,
            ).buffers[k].nicks;
            &&& forall|j: int|
                0 <= j < left.len() ==> ascii_lowercase((#[trigger] left[j]).name)
                    != ascii_lowercase(nick_name@)
            &&& 0 <= i < nicks.len() && ascii_lowercase(nicks[i].name) != ascii_lowercase(
                nick_name@,
            ) ==> left.contains(nicks[i])
        }),
{
    buffers_are_found_by_id(state.buffers, conn + "/"@ + buffer_id@, k);
    let nicks = state.buffers[k].nicks;
    let p = |n: NickView| !same_letters(n.name, nick_name@);
    let left = nicks.filter(p);
    assert forall|j: int| 0 <= j < left.len() implies ascii_lowercase((#[trigger] left[j]).name)
        != ascii_lowercase(nick_name@) by {
        nicks.lemma_filter_pred(p, j);
    }
    if 0 <= i < nicks.len() && ascii_lowercase(nicks[i].name) != ascii_lowercase(nick_name@) {
        nicks.lemma_filter_contains(p, i);
    }
}

/// A nick is away or back as the server says.
pub proof fn nicks_go_away_and_come_back(
    state: AppView,
    conn: Seq<char>,
    buffer_id: String,
    nick_name: String,
    away: bool,
    clock: Clock,
    k: int,
    i: int,
)
    requires
        stands_at(state.buffers, conn + "/"@ + buffer_id@, k),
        0 <= i < state.buffers[k].nicks.len(),
        ascii_lowercase(state.buffers[k].nicks[i].name) == ascii_lowercase(nick_name@),
        forall|j: int|
            0 <= j < i ==> ascii_lowercase((#[trigger] state.buffers[k].nicks[j]).name)
                != ascii_lowercase(nick_name@),
    ensures
        ({
            let before = state.buffers[k].nicks;
            let nicks = state.handling(
                conn,
                BackendEvent::NickAwayChanged { buffer_id, nick_name, away },
                clock,
            ).buffers[k].nicks;
            &&& nicks.len() == before.len()
            &&& nicks[i].away == away && nicks[i].name == before[i].name && nicks[i].prefix
                == before[i].prefix
            &&& forall|j: int| 0 <= j < before.len() && j != i ==> (#[trigger] nicks[j]) == before[j]
        }),
{
    buffers_are_found_by_id(state.buffers, conn + "/"@ + buffer_id@, k);
    let nicks = state.buffers[k].nicks;
    let p = |n: NickView| same_letters(n.name, nick_name@);
    lemma_first_from(nicks, p, 0);
    assert(p(nicks[i]));
    let f = first_index(nicks, p)->0;
    if f < i {
        assert(ascii_lowercase(nicks[f].name) != ascii_lowercase(nick_name@));
    }
}

/// A list of nicks holds all of them and no others.
pub proof fn nick_lists_hold_all_nicks(
    state: AppView,
    conn: Seq<char>,
    buffer_id: String,
    nicks: Vec<Nick>,
    clock: Clock,
    k: int,
)
    requires
        stands_at(state.buffers, conn + "/"@ + buffer_id@, k),
    ensures
        ({
            let after = state.handling(
                conn,
                BackendEvent::NicklistLoaded { buffer_id, nicks },
                clock,
            );
            &&& only_changes(state, after, k)
            &&& after.buffers[k].nicks.to_multiset() == views(nicks@).to_multiset()
        }),
{
    buffers_are_found_by_id(state.buffers, conn + "/"@ + buffer_id@, k);
    lemma_sorted_by_permutation(views(nicks@), |a: NickView, b: NickView| nick_rank_le(a, b));
}

/// Owners stand before administrators, those before operators, half-operators
/// and voiced, and all of them before the rest.
pub proof fn nicks_stand_by_rank(a: NickView, b: NickView)
    ensures
        a.prefix == "~"@ && b.prefix == "&"@ ==> nick_rank_le(a, b) && !nick_rank_le(b, a),
        a.prefix == "&"@ && b.prefix == "@"@ ==> nick_rank_le(a, b) && !nick_rank_le(b, a),
        a.prefix == "@"@ && b.prefix == "%"@ ==> nick_rank_le(a, b) && !nick_rank_le(b, a),
        a.prefix == "%"@ && b.prefix == "+"@ ==> nick_rank_le(a, b) && !nick_rank_le(b, a),
        a.prefix == "+"@ && b.prefix.len() == 0 ==> nick_rank_le(a, b) && !nick_rank_le(b, a),
{
    reveal_strlit("~");
    reveal_strlit("&");
    reveal_strlit("@");
    reveal_strlit("%");
    reveal_strlit("+");
    assert("~"@[0] != "&"@[0] && "~"@[0] != "@"@[0] && "~"@[0] != "%"@[0] && "~"@[0] != "+"@[0]);
    assert("&"@[0] != "@"@[0] && "&"@[0] != "%"@[0] && "&"@[0] != "+"@[0]);
    assert("@"@[0] != "%"@[0] && "@"@[0] != "+"@[0] && "%"@[0] != "+"@[0]);
    if a.prefix.len() <= 1 && b.prefix.len() <= 1 {
        lemma_mark(a.prefix);
        lemma_mark(b.prefix);
    }
}

proof fn lemma_mark(prefix: Seq<char>)
    requires
        prefix.len() <= 1,
    ensures
        contains(prefix, "~"@) <==> prefix == "~"@,
        contains(prefix, "&"@) <==> prefix == "&"@,
        contains(prefix, "@"@) <==> prefix == "@"@,
        contains(prefix, "%"@) <==> prefix == "%"@,
        contains(prefix, "+"@) <==> prefix == "+"@,
{
    reveal_strlit("~");
    reveal_strlit("&");
    reveal_strlit("@");
    reveal_strlit("%");
    reveal_strlit("+");
    lemma_one(prefix, "~"@);
    lemma_one(prefix, "&"@);
    lemma_one(prefix, "@"@);
    lemma_one(prefix, "%"@);
    lemma_one(prefix, "+"@);
}

proof fn lemma_one(prefix: Seq<char>, mark: Seq<char>)
    requires
        prefix.len() <= 1,
        mark.len() == 1,
    ensures
        contains(prefix, mark) <==> prefix == mark,
{
    if contains(prefix, mark) {
        let at = choose|at: int| crate::text::occurs_at(prefix, mark, at);
        assert(prefix.subrange(0, 1) =~= prefix);
    }
    if prefix == mark {
        assert(prefix.subrange(0, 1) =~= mark);
        assert(crate::text::occurs_at(prefix, mark, 0));
    }
}

/// A line that came stands last. In a buffer that is neither on view nor muted
/// it counts, a highlight as such.
pub proof fn lines_that_came_stand_last(
    state: AppView,
    conn: Seq<char>,
    buffer_id: String,
    line: Line,
    clock: Clock,
    k: int,
)
    requires
        stands_at(state.buffers, conn + "/"@ + buffer_id@, k),
        state.buffers[k].messages.len() < MAX_STORED_LINES,
        state.buffers[k].unread_count < u32::MAX,
    ensures
        ({
            let b = state.buffers[k];
            let after = state.handling(conn, BackendEvent::LineAdded { buffer_id, line }, clock);
            let c = after.buffers[k];
            let counted = state.selected_buffer_id != Some(conn + "/"@ + buffer_id@) && !b.muted
                && line@.displayed;
            &&& only_changes(state, after, k)
            &&& c.messages == b.messages.push(line@)
            &&& counted ==> c.unread_count == b.unread_count + 1
            &&& counted && line@.highlight ==> c.activity == BufferActivity::Highlight
            &&& counted && !line@.highlight ==> c.activity == (if b.activity
                == BufferActivity::Highlight {
                BufferActivity::Highlight
            } else {
                BufferActivity::Message
            })
            &&& !counted ==> c.unread_count == b.unread_count && c.activity == b.activity
                && after.outbox == state.outbox
        }),
{
    buffers_are_found_by_id(state.buffers, conn + "/"@ + buffer_id@, k);
}

/// Older lines stand before the lines that are there, each once; newer ones
/// behind.
pub proof fn loaded_lines_are_there(
    state: AppView,
    conn: Seq<char>,
    buffer_id: String,
    lines: Vec<Line>,
    is_prepend: bool,
    clock: Clock,
    k: int,
)
    requires
        stands_at(state.buffers, conn + "/"@ + buffer_id@, k),
        state.buffers[k].messages.len() + lines@.len() <= MAX_STORED_LINES,
        forall|i: int|
            0 <= i < lines@.len() ==> !line_is_known(
                state.buffers[k].messages,
                (#[trigger] views(lines@)[i]).id,
            ),
    ensures
        ({
            let after = state.handling(
                conn,
                BackendEvent::LinesLoaded { buffer_id, lines, is_prepend },
                clock,
            );
            &&& is_prepend ==> after.buffers[k].messages == views(lines@)
                + state.buffers[k].messages
            &&& !is_prepend ==> after.buffers[k].messages == state.buffers[k].messages + views(
                lines@,
            )
        }),
{
    buffers_are_found_by_id(state.buffers, conn + "/"@ + buffer_id@, k);
    let known = state.buffers[k].messages;
    let page = views(lines@);
    let p = |l: LineView| !line_is_known(known, l.id);
    lemma_filter_all(page, p);
}

proof fn lemma_filter_all<A>(s: Seq<A>, p: spec_fn(A) -> bool)
    requires
        forall|i: int| 0 <= i < s.len() ==> p(#[trigger] s[i]),
    ensures
        s.filter(p) == s,
    decreases s.len(),
{
    reveal(Seq::filter);
    if s.len() > 0 {
        let front = s.drop_last();
        assert forall|i: int| 0 <= i < front.len() implies p(#[trigger] front[i]) by {
            assert(front[i] == s[i]);
        }
        lemma_filter_all(front, p);
        assert(p(s[s.len() - 1]));
        assert(front.push(s.last()) =~= s);
    } else {
        assert(s.filter(p) =~= s);
    }
}

/// A closed buffer is gone, and all others stay.
pub proof fn closed_buffers_are_gone(
    state: AppView,
    conn: Seq<char>,
    buffer_id: String,
    clock: Clock,
    i: int,
)
    ensures
        ({
            let id = conn + "/"@ + buffer_id@;
            let after = state.handling(conn, BackendEvent::BufferClosed { buffer_id }, clock);
            &&& forall|j: int| 0 <= j < after.buffers.len() ==> (#[trigger] after.buffers[j]).id != id
            &&& 0 <= i < state.buffers.len() && state.buffers[i].id != id
                ==> after.buffers.contains(state.buffers[i])
            &&& state.selected_buffer_id != Some(id) ==> after.selected_buffer_id
                == state.selected_buffer_id
            &&& after.selected_buffer_id != Some(id) || state.selected_buffer_id != Some(id)
        }),
{
    let id = conn + "/"@ + buffer_id@;
    let p = |b: BufferView| b.id != id;
    let left = state.buffers.filter(p);
    assert forall|j: int| 0 <= j < left.len() implies (#[trigger] left[j]).id != id by {
        state.buffers.lemma_filter_pred(p, j);
    }
    if 0 <= i < state.buffers.len() && state.buffers[i].id != id {
        state.buffers.lemma_filter_contains(p, i);
    }
    lemma_first_from(left, |b: BufferView| !b.is_thread(), 0);
    assert(state.buffer_closed(id).buffers == left);
}

/// The relay hides and shows the buffer that it names.
pub proof fn the_relay_hides_and_shows(
    state: AppView,
    conn: Seq<char>,
    resp: WeeChatResponse,
    entries: Vec<RelayEntry>,
    clock: Clock,
    n: i64,
    k: int,
)
    requires
        resp.request_id is None,
        resp.event_name is Some,
        resp.buffer_id == Some(n),
        stands_at(state.buffers, conn + "/"@ + decimal_int(n as int), k),
    ensures
        ({
            let name = resp.event_name->0@;
            let after = state.handling(conn, BackendEvent::WeeChat(resp, entries), clock);
            &&& name == "buffer_hidden"@ ==> only_changes(state, after, k)
                && after.buffers[k].hidden
            &&& name == "buffer_unhidden"@ ==> only_changes(state, after, k)
                && !after.buffers[k].hidden
        }),
{
    buffers_are_found_by_id(state.buffers, conn + "/"@ + decimal_int(n as int), k);
    lemma_hiding_names();
    let name = resp.event_name->0@;
    if name == "buffer_hidden"@ {
        assert(state.relay_event(conn, name, resp, entries@, clock) == state.numbered_changed(
            conn,
            resp.buffer_id,
            crate::events::BufferChange::Hidden(true),
        ));
    }
    if name == "buffer_unhidden"@ {
        assert(state.relay_event(conn, name, resp, entries@, clock) == state.numbered_changed(
            conn,
            resp.buffer_id,
            crate::events::BufferChange::Hidden(false),
        ));
    }
}

proof fn lemma_hiding_names()
    ensures
        "buffer_hidden"@ != "buffer_line_added"@,
        "buffer_hidden"@ != "buffer_line_data_changed"@,
        "buffer_unhidden"@ != "buffer_line_added"@,
        "buffer_unhidden"@ != "buffer_line_data_changed"@,
        "buffer_unhidden"@ != "buffer_hidden"@,
{
    reveal_strlit("buffer_hidden");
    reveal_strlit("buffer_unhidden");
    reveal_strlit("buffer_line_added");
    reveal_strlit("buffer_line_data_changed");
    assert("buffer_hidden"@.len() == 13 && "buffer_unhidden"@.len() == 15);
    assert("buffer_line_added"@.len() == 17 && "buffer_line_data_changed"@.len() == 24);
}

/// The list of buffers is asked for again when one was opened.
pub proof fn new_buffers_are_asked_for(
    state: AppView,
    conn: Seq<char>,
    resp: WeeChatResponse,
    entries: Vec<RelayEntry>,
    clock: Clock,
)
    requires
        resp.request_id is None,
        resp.event_name is Some,
        resp.event_name->0@ == "buffer_opened"@,
        state.has_connection(conn),
    ensures
        state.handling(conn, BackendEvent::WeeChat(resp, entries), clock).outbox
            == state.outbox.push(ActionView::FetchBufferList { conn }),
        state.handling(conn, BackendEvent::WeeChat(resp, entries), clock).buffers == state.buffers,
{
    lemma_opened_name();
    assert(state.relay_event(conn, resp.event_name->0@, resp, entries@, clock) == state.asking(
        conn,
        ActionView::FetchBufferList { conn },
    ));
}

proof fn lemma_opened_name()
    ensures
        "buffer_opened"@ != "buffer_line_added"@,
        "buffer_opened"@ != "buffer_line_data_changed"@,
        "buffer_opened"@ != "buffer_hidden"@,
        "buffer_opened"@ != "buffer_unhidden"@,
        "buffer_opened"@ != "buffer_title_changed"@,
        "buffer_opened"@ != "nicklist_nick_added"@,
        "buffer_opened"@ != "nicklist_nick_removing"@,
        "buffer_opened"@ != "nicklist_nick_changed"@,
        "buffer_opened"@ != "buffer_cleared"@,
        "buffer_opened"@ != "upgrade"@,
        "buffer_opened"@ != "upgrade_ended"@,
{
    reveal_strlit("buffer_opened");
    reveal_strlit("buffer_line_added");
    reveal_strlit("buffer_line_data_changed");
    reveal_strlit("buffer_hidden");
    reveal_strlit("buffer_unhidden");
    reveal_strlit("buffer_title_changed");
    reveal_strlit("nicklist_nick_added");
    reveal_strlit("nicklist_nick_removing");
    reveal_strlit("nicklist_nick_changed");
    reveal_strlit("buffer_cleared");
    reveal_strlit("upgrade");
    reveal_strlit("upgrade_ended");
    assert("buffer_opened"@.len() == 13);
    assert("buffer_opened"@[7] == 'o' && "buffer_hidden"@[7] == 'h');
    assert("buffer_opened"@[0] == 'b' && "upgrade_ended"@[0] == 'u');
    assert("buffer_cleared"@.len() == 14 && "upgrade"@.len() == 7);
}

} // verus!
