//! What the relay tells of by itself, and what it answers.
use vstd::prelude::*;
use crate::events::{body_name, body_nick, route, RouteView};
use crate::json::{Json, JsonMember};
use crate::laws::events::only_changes;
use crate::laws::given::{bears, buffers_are_found_by_id, reading_gives_what_is_borne, stands_at};
use crate::models::{NickView, WeeChatResponse};
use crate::relay_details::{nick_changed, nick_joined, nick_left, with_info};
use crate::relay_lines::full_id;
use crate::state::{ActionView, AppView, Clock, RelayEntry};
use crate::tags::{direct_nicks, json_nick, nicks_in, nicks_in_groups};
use crate::text::decimal_int;

verus! {

proof fn lemma_line_names()
    ensures
        "buffer_line_added"@.len() == 17,
        "buffer_line_data_changed"@.len() == 24,
        "buffer_hidden"@.len() == 13,
        "buffer_hidden"@[7] == 'h',
        "buffer_unhidden"@.len() == 15,
        "buffer_title_changed"@.len() == 20,
        "buffer_title_changed"@[7] == 't',
{
    reveal_strlit("buffer_line_added");
    reveal_strlit("buffer_line_data_changed");
    reveal_strlit("buffer_hidden");
    reveal_strlit("buffer_unhidden");
    reveal_strlit("buffer_title_changed");
}

proof fn lemma_nick_names()
    ensures
        "nicklist_nick_added"@.len() == 19,
        "nicklist_nick_removing"@.len() == 22,
        "nicklist_nick_removing"@[0] == 'n',
        "nicklist_nick_changed"@.len() == 21,
        "nicklist_nick_changed"@[0] == 'n',
{
    reveal_strlit("nicklist_nick_added");
    reveal_strlit("nicklist_nick_removing");
    reveal_strlit("nicklist_nick_changed");
}

proof fn lemma_state_names()
    ensures
        "buffer_cleared"@.len() == 14,
        "buffer_cleared"@[7] == 'c',
        "upgrade"@.len() == 7,
        "upgrade_ended"@.len() == 13,
        "upgrade_ended"@[0] == 'u',
        "upgrade_ended"@[7] == '_',
{
    reveal_strlit("buffer_cleared");
    reveal_strlit("upgrade");
    reveal_strlit("upgrade_ended");
}

proof fn lemma_list_names()
    ensures
        "buffer_opened"@.len() == 13,
        "buffer_opened"@[0] == 'b',
        "buffer_closed"@.len() == 13,
        "buffer_closed"@[0] == 'b',
        "buffer_closed"@[7] == 'c',
        "buffer_renamed"@.len() == 14,
        "buffer_renamed"@[7] == 'r',
{
    reveal_strlit("buffer_opened");
    reveal_strlit("buffer_closed");
    reveal_strlit("buffer_renamed");
}

proof fn lemma_variable_names()
    ensures
        "buffer_localvar_added"@.len() == 21,
        "buffer_localvar_added"@[0] == 'b',
        "buffer_localvar_added"@[7] == 'l',
        "buffer_localvar_changed"@.len() == 23,
        "buffer_localvar_removed"@.len() == 23,
{
    reveal_strlit("buffer_localvar_added");
    reveal_strlit("buffer_localvar_changed");
    reveal_strlit("buffer_localvar_removed");
}

proof fn lemma_hot_names()
    ensures
        "buffer_hotlist_added"@.len() == 20,
        "buffer_hotlist_added"@[7] == 'h',
        "buffer_hotlist_updated"@.len() == 22,
        "buffer_hotlist_updated"@[0] == 'b',
        "buffer_hotlist_updated"@[15] == 'u',
        "buffer_hotlist_removed"@.len() == 22,
        "buffer_hotlist_removed"@[0] == 'b',
        "buffer_hotlist_removed"@[15] == 'r',
{
    reveal_strlit("buffer_hotlist_added");
    reveal_strlit("buffer_hotlist_updated");
    reveal_strlit("buffer_hotlist_removed");
}

/// A buffer whose title changed is asked about again.
pub proof fn changed_titles_are_asked_for(
    state: AppView,
    conn: Seq<char>,
    resp: WeeChatResponse,
    entries: Seq<RelayEntry>,
    clock: Clock,
    n: i64,
)
    requires
        state.has_connection(conn),
        resp.buffer_id == Some(n),
    ensures
        ({
            let after = state.relay_event(conn, "buffer_title_changed"@, resp, entries, clock);
            &&& after.outbox == state.outbox.push(
                ActionView::RefreshBuffer { conn, raw_id: decimal_int(n as int) },
            )
            &&& after.buffers == state.buffers
        }),
{
    lemma_line_names();
}

/// A nick that the relay tells of comes, changes or goes, in the buffer that it
/// names and in no other.
pub proof fn told_nicks_come_and_go(
    state: AppView,
    conn: Seq<char>,
    resp: WeeChatResponse,
    entries: Seq<RelayEntry>,
    clock: Clock,
    n: i64,
    k: int,
    nick: NickView,
    name: Seq<char>,
)
    requires
        resp.buffer_id == Some(n),
        stands_at(state.buffers, conn + "/"@ + decimal_int(n as int), k),
    ensures
        body_nick(resp.body) == Some(nick) ==> ({
            let after = state.relay_event(conn, "nicklist_nick_added"@, resp, entries, clock);
            only_changes(state, after, k) && after.buffers[k].nicks == nick_joined(
                state.buffers[k].nicks,
                nick,
            )
        }),
        body_nick(resp.body) == Some(nick) ==> ({
            let after = state.relay_event(conn, "nicklist_nick_changed"@, resp, entries, clock);
            only_changes(state, after, k) && after.buffers[k].nicks == nick_changed(
                state.buffers[k].nicks,
                nick,
            )
        }),
        body_name(resp.body) == Some(name) ==> ({
            let after = state.relay_event(conn, "nicklist_nick_removing"@, resp, entries, clock);
            only_changes(state, after, k) && after.buffers[k].nicks == nick_left(
                state.buffers[k].nicks,
                name,
            )
        }),
{
    lemma_line_names();
    lemma_nick_names();
    buffers_are_found_by_id(state.buffers, conn + "/"@ + decimal_int(n as int), k);
}

/// A buffer that was cleared has no lines and no mark; the others keep theirs.
pub proof fn cleared_buffers_are_empty(
    state: AppView,
    conn: Seq<char>,
    resp: WeeChatResponse,
    entries: Seq<RelayEntry>,
    clock: Clock,
    n: i64,
    k: int,
)
    requires
        resp.buffer_id == Some(n),
        stands_at(state.buffers, conn + "/"@ + decimal_int(n as int), k),
    ensures
        ({
            let after = state.relay_event(conn, "buffer_cleared"@, resp, entries, clock);
            &&& only_changes(state, after, k)
            &&& after.buffers[k].messages.len() == 0
            &&& after.buffers[k].last_read_id is None
            &&& after.buffers[k].id == state.buffers[k].id
            &&& after.buffers[k].nicks == state.buffers[k].nicks
        }),
{
    lemma_line_names();
    lemma_nick_names();
    lemma_state_names();
    buffers_are_found_by_id(state.buffers, conn + "/"@ + decimal_int(n as int), k);
}

/// Buffers that were closed or renamed, and what was read elsewhere, are asked
/// about again.
pub proof fn changed_lists_are_asked_for(
    state: AppView,
    conn: Seq<char>,
    resp: WeeChatResponse,
    entries: Seq<RelayEntry>,
    clock: Clock,
)
    requires
        state.has_connection(conn),
    ensures
        state.relay_event(conn, "buffer_closed"@, resp, entries, clock).outbox == state.outbox.push(
            ActionView::FetchBufferList { conn },
        ),
        state.relay_event(conn, "buffer_renamed"@, resp, entries, clock).outbox == state.outbox.push(
            ActionView::FetchBufferList { conn },
        ),
        state.relay_event(conn, "buffer_hotlist_removed"@, resp, entries, clock).outbox
            == state.outbox.push(ActionView::FetchHotlist { conn }),
{
    lemma_line_names();
    lemma_nick_names();
    lemma_state_names();
    lemma_list_names();
    lemma_variable_names();
    lemma_hot_names();
}

// ---------------------------------------------------------------------------
// Answers
// ---------------------------------------------------------------------------

/// An answer about nicks gives its buffer the nicks that it names.
pub proof fn answers_about_nicks_give_the_nicks(
    state: AppView,
    conn: Seq<char>,
    resp: WeeChatResponse,
    entries: Seq<RelayEntry>,
    clock: Clock,
    raw_id: Seq<char>,
    value: Json,
    k: int,
)
    requires
        resp.request_id is Some,
        route(resp.request_id->0@) == RouteView::Nicks(raw_id),
        resp.body == Some(value),
        stands_at(state.buffers, conn + "/"@ + raw_id, k),
    ensures
        ({
            let after = state.responded(conn, resp, entries, clock);
            only_changes(state, after, k) && after.buffers[k].nicks == nicks_in(value)
        }),
{
    buffers_are_found_by_id(state.buffers, conn + "/"@ + raw_id, k);
    assert(state.responded(conn, resp, entries, clock) == state.nicks_listed(
        full_id(conn, raw_id),
        resp.body,
    ));
}

/// What a buffer is like is taken over from the entry that tells of it.
pub proof fn told_details_are_taken_over(
    state: AppView,
    conn: Seq<char>,
    id: Seq<char>,
    vec: Vec<JsonMember>,
    entry: RelayEntry,
    k: int,
)
    requires
        stands_at(state.buffers, id, k),
    ensures
        ({
            let after = state.info_entry(conn, id, Json::Object(vec), entry);
            &&& only_changes(state, after, k)
            &&& after.buffers[k] == with_info(state.buffers[k], conn, vec@, entry)
            &&& after.buffers[k].messages == state.buffers[k].messages
            &&& after.buffers[k].nicks == state.buffers[k].nicks
            &&& after.buffers[k].unread_count == state.buffers[k].unread_count
            &&& after.buffers[k].name == state.buffers[k].name
        }),
{
    buffers_are_found_by_id(state.buffers, id, k);
}

proof fn lemma_mapped<A, B>(s: Seq<A>, f: spec_fn(A) -> Option<B>, i: int)
    requires
        0 <= i < s.len(),
        f(s[i]) is Some,
    ensures
        s.filter_map(f).contains(f(s[i])->0),
    decreases s.len(),
{
    reveal(Seq::filter_map);
    let front = s.drop_last();
    let before = front.filter_map(f);
    let after = s.filter_map(f);
    if i == s.len() - 1 {
        assert(after[before.len() as int] == f(s[i])->0);
    } else {
        lemma_mapped(front, f, i);
        assert(front[i] == s[i]);
        let k = choose|k: int| 0 <= k < before.len() && before[k] == f(s[i])->0;
        assert(after[k] == f(s[i])->0);
    }
}

/// Every nick of a list is there, in whatever group it stands.
pub proof fn listed_nicks_are_there(
    vec: Vec<JsonMember>,
    items: Vec<Json>,
    groups: Vec<Json>,
    i: int,
    nick: NickView,
)
    ensures
        bears(vec@, "nicks"@, Json::Array(items)) && 0 <= i < items@.len() && json_nick(items@[i])
            == Some(nick) ==> nicks_in(Json::Object(vec)).contains(nick),
        bears(vec@, "groups"@, Json::Array(groups)) && 0 <= i < groups@.len() && nicks_in(
            groups@[i],
        ).contains(nick) ==> nicks_in(Json::Object(vec)).contains(nick),
{
    let value = Json::Object(vec);
    let direct = direct_nicks(vec@);
    if bears(vec@, "nicks"@, Json::Array(items)) && 0 <= i < items@.len() && json_nick(items@[i])
        == Some(nick) {
        reading_gives_what_is_borne(vec@, "nicks"@, Json::Array(items));
        let f = |n: Json| json_nick(n);
        lemma_mapped(items@, f, i);
        let k = choose|k: int| 0 <= k < direct.len() && direct[k] == nick;
        assert(nicks_in(value)[k] == nick);
    }
    if bears(vec@, "groups"@, Json::Array(groups)) && 0 <= i < groups@.len() && nicks_in(
        groups@[i],
    ).contains(nick) {
        reading_gives_what_is_borne(vec@, "groups"@, Json::Array(groups));
        lemma_in_groups(groups@, groups@.len(), i, nick);
        let inner = nicks_in_groups(groups@, groups@.len());
        let k = choose|k: int| 0 <= k < inner.len() && inner[k] == nick;
        assert(nicks_in(value) == direct + inner);
        assert(nicks_in(value)[direct.len() as int + k] == nick);
    }
}

proof fn lemma_in_groups(groups: Seq<Json>, n: nat, i: int, nick: NickView)
    requires
        0 <= i < n <= groups.len(),
        nicks_in(groups[i]).contains(nick),
    ensures
        nicks_in_groups(groups, n).contains(nick),
    decreases n,
{
    let before = nicks_in_groups(groups, (n - 1) as nat);
    let last = nicks_in(groups[n - 1]);
    let all = nicks_in_groups(groups, n);
    assert(all == before + last);
    if i == n - 1 {
        let k = choose|k: int| 0 <= k < last.len() && last[k] == nick;
        assert(all[before.len() as int + k] == nick);
    } else {
        lemma_in_groups(groups, (n - 1) as nat, i, nick);
        let k = choose|k: int| 0 <= k < before.len() && before[k] == nick;
        assert(all[k] == nick);
    }
}

} // verus!
