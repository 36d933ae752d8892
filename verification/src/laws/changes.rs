//! What changes afterwards: lines, pages, orders; and who is spoken to.
use vstd::prelude::*;
use crate::backend::with_page_taken;
use crate::json::JsonMember;
use crate::laws::given::{
    affirms, buffers_are_found_by_id, lacks, nothing_is_read_where_nothing_is_said,
    reading_gives_what_is_affirmed, stands_at,
};
use crate::laws::writing::{
    completed_words_replace_what_was_typed, the_last_word_stands_behind_the_last_space,
};
use crate::lines::relay_line;
use crate::mentions::nicks_like;
use crate::models::{mentions_any, word_from, BufferView, LineView};
use crate::order::connection_of;
use crate::relay_buffers::{by_connection, connection_set};
use crate::relay_lines::{changed_line, with_changed_line};
use crate::seqs::lemma_first_from;
use crate::state::AppView;
use crate::tags::{kind_in, server_in};
use crate::text::{find_from, lemma_find_from, lowercase, occurs_at, starts_with};
use crate::time::Timestamp;

verus! {

/// A change is made to the line that it names. A line that is not there yet is
/// added where it is shown, and left out where it is hidden.
pub proof fn changes_reach_their_line(
    b: BufferView,
    obj: Seq<JsonMember>,
    id: Seq<char>,
    date: Timestamp,
    k: int,
)
    requires
        b.messages.len() < 10_000,
    ensures
        0 <= k < b.messages.len() && b.messages[k].id == id && (forall|j: int|
            0 <= j < k ==> (#[trigger] b.messages[j]).id != id) ==> with_changed_line(
            b,
            obj,
            id,
            date,
        ).messages == b.messages.update(k, changed_line(b.messages[k], obj)),
        (forall|j: int| 0 <= j < b.messages.len() ==> (#[trigger] b.messages[j]).id != id) && (
        affirms(obj, "displayed"@, true) || lacks(obj, "displayed"@)) ==> with_changed_line(
            b,
            obj,
            id,
            date,
        ).messages == b.messages.push(relay_line(obj, id, date, true, false)),
        (forall|j: int| 0 <= j < b.messages.len() ==> (#[trigger] b.messages[j]).id != id)
            && affirms(obj, "displayed"@, false) ==> with_changed_line(b, obj, id, date) == b,
        with_changed_line(b, obj, id, date).unread_count == b.unread_count,
{
    let p = |l: LineView| l.id == id;
    lemma_first_from(b.messages, p, 0);
    if 0 <= k < b.messages.len() && b.messages[k].id == id {
        assert(p(b.messages[k]));
    }
    if affirms(obj, "displayed"@, true) {
        reading_gives_what_is_affirmed(obj, "displayed"@, true, true);
    }
    if affirms(obj, "displayed"@, false) {
        reading_gives_what_is_affirmed(obj, "displayed"@, false, true);
    }
    if lacks(obj, "displayed"@) {
        nothing_is_read_where_nothing_is_said(obj, "displayed"@);
        assert(crate::json::member_bool_or(obj, "displayed"@, true));
    }
}

/// A page counts in a buffer that is neither muted nor being read, and only
/// there.
pub proof fn pages_count_where_they_are_news(b: BufferView, page: Seq<LineView>, is_prepend: bool)
    ensures
        b.muted ==> with_page_taken(b, page, is_prepend, true).unread_count == b.unread_count
            && with_page_taken(b, page, is_prepend, true).activity == b.activity,
        with_page_taken(b, page, is_prepend, false).unread_count == b.unread_count,
        with_page_taken(b, page, is_prepend, false).activity == b.activity,
        !b.muted ==> with_page_taken(b, page, false, true).unread_count == crate::backend::counted(
            b.activity,
            b.unread_count,
            page,
            None,
        ).1,
        !b.muted ==> with_page_taken(b, page, true, true).unread_count == crate::backend::counted(
            b.activity,
            b.unread_count,
            page,
            b.last_markread_ts,
        ).1,
        with_page_taken(b, page, is_prepend, true).messages == with_page_taken(
            b,
            page,
            is_prepend,
            false,
        ).messages,
{
}

proof fn lemma_connection_in(buffers: Seq<BufferView>, i: int)
    requires
        0 <= i < buffers.len(),
    ensures
        connection_set(buffers).contains(connection_of(buffers[i].id)),
        connection_set(buffers).finite(),
    decreases buffers.len(),
{
    let front = buffers.drop_last();
    if front.len() > 0 {
        lemma_connection_in(
            front,
            if i < front.len() {
                i
            } else {
                0
            },
        );
    }
    if i < front.len() {
        assert(front[i] == buffers[i]);
    }
    if front.len() == 0 {
        assert(connection_set(front) == Set::<Seq<char>>::empty());
    }
}

proof fn lemma_one_connection(buffers: Seq<BufferView>, one: Seq<char>)
    requires
        forall|i: int|
            0 <= i < buffers.len() ==> connection_of((#[trigger] buffers[i]).id) == one,
    ensures
        connection_set(buffers).subset_of(set![one]),
        connection_set(buffers).finite(),
    decreases buffers.len(),
{
    if buffers.len() > 0 {
        let front = buffers.drop_last();
        assert forall|i: int| 0 <= i < front.len() implies connection_of((#[trigger] front[i]).id)
            == one by {
            assert(front[i] == buffers[i]);
        }
        lemma_one_connection(front, one);
        assert(connection_of(buffers[buffers.len() - 1].id) == one);
    }
}

/// The buffers of several connections are put together by connection; those of
/// one stay as they are.
pub proof fn several_connections_are_kept_apart(state: AppView, i: int, j: int, one: Seq<char>)
    ensures
        0 <= i < state.buffers.len() && 0 <= j < state.buffers.len() && connection_of(
            state.buffers[i].id,
        ) != connection_of(state.buffers[j].id) ==> state.connections_together().buffers
            == by_connection(state.buffers),
        (forall|k: int|
            0 <= k < state.buffers.len() ==> connection_of((#[trigger] state.buffers[k]).id) == one)
            ==> state.connections_together() == state,
{
    let all = connection_set(state.buffers);
    if 0 <= i < state.buffers.len() && 0 <= j < state.buffers.len() && connection_of(
        state.buffers[i].id,
    ) != connection_of(state.buffers[j].id) {
        lemma_connection_in(state.buffers, i);
        lemma_connection_in(state.buffers, j);
        let a = connection_of(state.buffers[i].id);
        let b = connection_of(state.buffers[j].id);
        let pair = set![a, b];
        assert(pair.len() == 2);
        assert(pair.subset_of(all));
        vstd::set_lib::lemma_len_subset(pair, all);
    }
    if forall|k: int|
        0 <= k < state.buffers.len() ==> connection_of((#[trigger] state.buffers[k]).id) == one {
        lemma_one_connection(state.buffers, one);
        let lone = set![one];
        assert(lone.len() == 1);
        vstd::set_lib::lemma_len_subset(all, lone);
    }
}

/// Whether a character may stand inside a name.
pub open spec fn joins(c: char) -> bool {
    crate::text::alphanumeric(c) || c == '_'
}

/// A name in a text speaks to its bearer where nothing that belongs to a name
/// stands on either side, and does not where it is part of a longer name.
pub proof fn names_speak_where_they_stand_alone(
    message: Seq<char>,
    alias: Seq<char>,
    at: int,
)
    requires
        lowercase(alias).len() > 0,
        occurs_at(lowercase(message), lowercase(alias), at),
        forall|j: int| j != at ==> !#[trigger] occurs_at(lowercase(message), lowercase(alias), j),
    ensures
        ({
            let text = lowercase(message);
            let end = at + lowercase(alias).len();
            let free = (at == 0 || !joins(text[at - 1])) && (end == text.len() || !joins(text[end]));
            free <==> mentions_any(message, seq![alias])
        }),
{
    let text = lowercase(message);
    let name = lowercase(alias);
    let aliases = seq![alias];
    assert(aliases[0] == alias);
    lemma_find_from(text, name, 0);
    assert(find_from(text, name, 0) == Some(at));
    lemma_find_from(text, name, at + name.len() as int);
    assert(find_from(text, name, at + name.len() as int) is None);
    assert(!word_from(text, name, at + name.len() as int));
}

/// A word that is being typed becomes the first nick that begins like it; where
/// none does, it stays.
pub proof fn words_become_nicks(
    state: AppView,
    id: Seq<char>,
    k: int,
    word: Seq<char>,
    emoji: Seq<Seq<char>>,
)
    requires
        state.completion is None,
        state.selected_buffer_id == Some(id),
        stands_at(state.buffers, id, k),
        state.input_text == word,
        word.len() > 0,
        word[0] != ':',
        forall|i: int| 0 <= i < word.len() ==> #[trigger] word[i] != ' ',
    ensures
        nicks_like(state.buffers[k].nicks, word).len() > 0 ==> state.word_completed(emoji).input_text
            == nicks_like(state.buffers[k].nicks, word)[0] + ": "@,
        nicks_like(state.buffers[k].nicks, word).len() == 0 ==> state.word_completed(emoji) == state,
{
    buffers_are_found_by_id(state.buffers, id, k);
    the_last_word_stands_behind_the_last_space(Seq::empty(), word);
    let matches = nicks_like(state.buffers[k].nicks, word);
    reveal_strlit(":");
    if starts_with(word, ":"@) {
        assert(word.subrange(0, 1)[0] == word[0]);
    }
    assert(word.skip(0) =~= word);
    if matches.len() > 0 {
        completed_words_replace_what_was_typed(state, Seq::empty(), word, matches);
    }
}

/// A buffer of which nothing is known is of no known kind, and one of a plugin
/// is its server.
pub proof fn untold_kinds_follow_from_the_plugin(
    obj: Seq<JsonMember>,
    full_name: Seq<char>,
    plugin: Seq<char>,
)
    requires
        lacks(obj, "local_variables"@),
        plugin != "irc"@,
    ensures
        plugin.len() == 0 ==> kind_in(obj, full_name, plugin) == "unknown"@,
        plugin.len() == 0 ==> server_in(obj, full_name, plugin) == "orphans"@,
        plugin.len() > 0 ==> kind_in(obj, full_name, plugin) == "server"@,
        plugin.len() > 0 ==> server_in(obj, full_name, plugin) == lowercase(plugin),
{
    nothing_is_read_where_nothing_is_said(obj, "local_variables"@);
}

} // verus!
