//! Conversations: tags, replies, threads, rooms and the timeline.
use vstd::prelude::*;
use crate::json::{Json, JsonMember};
use crate::laws::given::{bears, reading_gives_what_is_borne};
use crate::models::{mentions_any, BufferActivity, BufferView, LineView, MatrixReplyLineKind};
use crate::rooms::{
    all_ranked, composed_lines, is_destination, is_newest, is_restorable, load_target, merged,
    own_lines, oldest_lines, predecessors, preferred_chat, ranked_le, replaced_rooms, RankedView,
};
use crate::seqs::{first_index, lemma_first_from, lemma_sorted_by_permutation};
use crate::tags::{event_id_behind, media_from, reply_in, tag_behind, tags};
use crate::text::{find_from, is_space, lemma_find_from, lowercase, occurs_at, starts_with, trim};
use crate::threads::{quote_text, short_event_id, thread_blocks};
use crate::timeline::{summaries, thread_label, ShownView, TimelineItem, TimelineView};

verus! {

// ---------------------------------------------------------------------------
// Tags
// ---------------------------------------------------------------------------

/// A tag that carries a value behind its name gives that value.
pub proof fn tags_give_what_they_carry(
    list: Seq<Seq<char>>,
    name: Seq<char>,
    value: Seq<char>,
    i: int,
)
    requires
        0 <= i < list.len(),
        list[i] == name + value,
        forall|j: int| 0 <= j < i ==> !starts_with(#[trigger] list[j], name),
    ensures
        tag_behind(list, name) == Some(value),
        value.len() > 0 && value[0] == '$' && !crate::people::has_space(value) ==> event_id_behind(
            list,
            name,
        ) == Some(value),
{
    let text = name + value;
    let n = name.len() as int;
    assert(text.subrange(0, n) =~= name);
    assert(text.skip(n) =~= value);
    let p = |t: Seq<char>| starts_with(t, name);
    lemma_first_from(list, p, 0);
    assert(p(list[i]));
    let k = first_index(list, p)->0;
    if k < i {
        assert(!starts_with(list[k], name));
    }
    if value.len() > 0 && value[0] == '$' && !crate::people::has_space(value) {
        reveal_strlit("$");
        assert(value.subrange(0, 1) =~= "$"@);
        let q = |t: Seq<char>|
            starts_with(t, name) && crate::tags::is_event_id(t.skip(name.len() as int));
        lemma_first_from(list, q, 0);
        assert(q(list[i]));
        let m = first_index(list, q)->0;
        if m < i {
            assert(!starts_with(list[m], name));
        }
    }
}

/// The tags of a line are the texts of their list.
pub proof fn tags_are_the_texts_of_the_list(obj: Seq<JsonMember>, items: Vec<Json>)
    requires
        bears(obj, "tags"@, Json::Array(items)),
    ensures
        tags(obj) == items@.filter_map(
            |item: Json|
                match item {
                    Json::Text(t) => Some(t@),
                    _ => None,
                },
        ),
{
    reading_gives_what_is_borne(obj, "tags"@, Json::Array(items));
    let f = |item: Json| crate::json::json_text(item);
    let g = |item: Json|
        match item {
            Json::Text(t) => Some(t@),
            _ => None,
        };
    assert(f =~= g);
}

/// A line is part of an answer where its tags say so: a header before a quote.
pub proof fn answers_are_known_by_their_tags(list: Seq<Seq<char>>)
    ensures
        list.contains("matrix_reply_header"@) ==> reply_in(list) is Some && reply_in(list)->0.kind
            == MatrixReplyLineKind::Header,
        !list.contains("matrix_reply_header"@) && list.contains("matrix_reply_quote"@)
            ==> reply_in(list) is Some && reply_in(list)->0.kind == MatrixReplyLineKind::Quote,
        !list.contains("matrix_reply_header"@) && !list.contains("matrix_reply_quote"@)
            ==> reply_in(list) is None,
{
}

/// A file of a message has the address, the name and the kind that it is given.
pub proof fn files_of_messages_are_as_told(
    uri: Seq<char>,
    host: Seq<char>,
    path: Seq<char>,
    kind: Seq<char>,
    name: Seq<char>,
)
    requires
        path.len() > 0,
        path.last() != '/',
        name.len() > 0,
        !is_space(name[0]),
        !is_space(name.last()),
    ensures
        ({
            let media = media_from(uri, Some(("mxc"@, Some(host), path)), Some(kind), Some(name));
            let known = kind == "audio"@ || kind == "file"@ || kind == "image"@ || kind == "video"@;
            &&& known ==> media is Some && media->0.mxc_uri == uri && media->0.name == name
                && media->0.kind == kind
            &&& !known ==> media is None
            &&& media_from(uri, None, Some(kind), Some(name)) is None
        }),
{
    crate::laws::texts::trimmed_texts_stay(name);
    assert(path[path.len() - 1] != '/');
}

// ---------------------------------------------------------------------------
// Replies and threads
// ---------------------------------------------------------------------------

/// A quote is what stands behind the mark.
pub proof fn quotes_stand_behind_the_mark(quote: Seq<char>)
    requires
        quote.len() > 0,
        !is_space(quote[0]),
    ensures
        quote_text("> "@ + quote, Seq::empty()) == quote,
{
    reveal_strlit("> ");
    let message = "> "@ + quote;
    assert(message.subrange(0, 2) =~= "> "@);
    assert(message.skip(2) =~= quote);
    assert(trim(Seq::<char>::empty()) =~= Seq::empty());
}

/// A short id stays, a long one is cut off behind 18 characters.
pub proof fn long_ids_are_cut_off(id: Seq<char>)
    ensures
        id.len() <= 18 ==> short_event_id(id) == id,
        id.len() > 18 ==> short_event_id(id) == id.subrange(0, 18) + "..."@,
{
    if id.len() > 18 {
        assert(id.take(18) =~= id.subrange(0, 18));
    }
}

/// A line of a thread that is shown stands last in the last block, with its
/// words and its file; its block bears the sender and the time of its first
/// line.
pub proof fn thread_lines_stand_in_their_block(lines: Seq<LineView>, line: LineView)
    requires
        line.displayed,
        line.matrix_reply is None,
    ensures
        ({
            let before = thread_blocks(lines);
            let after = thread_blocks(lines.push(line));
            &&& after.len() > 0 && after.last().content.len() > 0
            &&& after.last().content.last().message == line.message
            &&& after.last().content.last().media == line.matrix_media
            &&& after.len() == before.len() + 1 ==> after.last().prefix == line.prefix
                && after.last().timestamp == line.timestamp && after.last().matrix_event_id
                == line.matrix_event_id
            &&& after.len() == before.len() || after.len() == before.len() + 1
            &&& lines.len() == 0 ==> after.len() == 1
        }),
{
    assert(lines.push(line).drop_last() =~= lines);
}

/// A line that is not shown stands in no block.
pub proof fn hidden_lines_stand_in_no_block(lines: Seq<LineView>, line: LineView)
    requires
        !line.displayed,
    ensures
        thread_blocks(lines.push(line)) == thread_blocks(lines),
{
    assert(lines.push(line).drop_last() =~= lines);
}

/// Lines of one event stand together; those of another begin anew.
pub proof fn events_stand_together(lines: Seq<LineView>, line: LineView)
    requires
        line.displayed,
        line.matrix_event_id is Some,
        thread_blocks(lines).len() > 0,
    ensures
        thread_blocks(lines).last().matrix_event_id == line.matrix_event_id ==> thread_blocks(
            lines.push(line),
        ).len() == thread_blocks(lines).len(),
        thread_blocks(lines).last().matrix_event_id != line.matrix_event_id ==> thread_blocks(
            lines.push(line),
        ).len() == thread_blocks(lines).len() + 1,
{
    assert(lines.push(line).drop_last() =~= lines);
}

/// The thread that began with an event is found by it, with its answers and
/// whether something in it is unread.
pub proof fn threads_are_found_by_their_event(
    buffers: Seq<BufferView>,
    b: BufferView,
    room_id: Seq<char>,
    root: Seq<char>,
)
    requires
        b.plugin == "matrix"@,
        b.matrix_room_id == Some(room_id),
        b.matrix_thread_root == Some(root),
        thread_blocks(b.messages).len() <= usize::MAX,
    ensures
        ({
            let map = summaries(buffers.push(b), Some(room_id));
            &&& map.contains_key(root)
            &&& map[root].buffer_id == b.id
            &&& map[root].unread == (b.activity != BufferActivity::Idle)
            &&& thread_blocks(b.messages).len() > 0 ==> map[root].replies == thread_blocks(
                b.messages,
            ).len() - 1
        }),
{
    assert(buffers.push(b).drop_last() =~= buffers);
}

/// The button of a thread says how many answers it has.
pub proof fn buttons_say_how_many_answers(n: usize, m: usize)
    requires
        2 <= n,
        2 <= m,
    ensures
        thread_label(n) == "💬 "@ + crate::text::decimal(n as nat) + " replies"@,
        n != m ==> thread_label(n) != thread_label(m),
{
    if n != m {
        crate::laws::texts::different_numbers_look_different(n as nat, m as nat);
        let a = crate::text::decimal(n as nat);
        let b = crate::text::decimal(m as nat);
        let head = "💬 "@;
        let tail = " replies"@;
        let left = head + a + tail;
        let right = head + b + tail;
        if left == right {
            assert(left.len() == head.len() + a.len() + tail.len());
            assert(right.len() == head.len() + b.len() + tail.len());
            assert(left.subrange(head.len() as int, head.len() + a.len() as int) =~= a);
            assert(right.subrange(head.len() as int, head.len() + b.len() as int) =~= b);
        }
    }
}

// ---------------------------------------------------------------------------
// The timeline
// ---------------------------------------------------------------------------

/// A line that is hidden has no row unless hidden lines are wanted; while
/// something is searched for, only what holds it has one.
pub proof fn rows_are_what_is_wanted(t: TimelineView, line: LineView, query: Seq<char>)
    requires
        !crate::media::is_download_report(line.plain_message),
        line.matrix_reply is None,
        line.matrix_event_id is None,
    ensures
        !line.displayed && !t.show_filtered ==> !t.has_row(line),
        line.displayed && t.query is None ==> t.has_row(line),
        t.show_filtered && t.query is None ==> t.has_row(line),
        t.query == Some(query) && !crate::text::contains(line.plain_prefix_lower, query)
            && !crate::text::contains(line.plain_message_lower, query) ==> !t.has_row(line),
        line.displayed && t.query == Some(query) && crate::text::contains(
            line.plain_message_lower,
            query,
        ) ==> t.has_row(line),
        line.displayed && t.query == Some(query) && crate::text::contains(
            line.plain_prefix_lower,
            query,
        ) ==> t.has_row(line),
{
}

/// A row tells of its own line: whether it was taken over from an older room,
/// and whether it speaks to the user.
pub proof fn rows_tell_of_their_line(t: TimelineView, shown: ShownView, i: int)
    requires
        0 <= i < t.messages.len() <= usize::MAX,
    ensures
        ({
            let row = t.row(shown, i);
            &&& row is Row
            &&& row->Row_line == i
            &&& row->Row_is_inherited == t.inherited.contains(t.messages[i].id)
            &&& t.messages[i].highlight ==> row->Row_is_own_mention
            &&& t.aliases.len() == 0 ==> row->Row_is_own_mention == t.messages[i].highlight
            &&& t.messages[i].matrix_event_id is None ==> !row->Row_continues_event
        }),
{
}

/// A new day is announced before its first line, and only there.
pub proof fn days_are_announced(t: TimelineView, shown: ShownView, i: int)
    requires
        0 <= i < t.messages.len() <= usize::MAX,
    ensures
        t.headings(shown, i).contains(TimelineItem::Day { line: i as usize }) <==> shown.last_date
            != Some(t.days[i].date),
        t.headings(shown, i).contains(TimelineItem::NewMessages) <==> !shown.marker_shown
            && t.marker.precedes(i),
        t.headings(shown, i).contains(TimelineItem::ArchivedYear { line: i as usize })
            <==> t.inherited.contains(t.messages[i].id) && !shown.years.contains(t.days[i].year),
{
    let h = t.headings(shown, i);
    let archived = t.inherited.contains(t.messages[i].id) && !shown.years.contains(t.days[i].year);
    let dated = shown.last_date != Some(t.days[i].date);
    let marked = !shown.marker_shown && t.marker.precedes(i);
    let a = if archived {
        1int
    } else {
        0int
    };
    let d = if dated {
        1int
    } else {
        0int
    };
    if archived {
        assert(h[0] == TimelineItem::ArchivedYear { line: i as usize });
    }
    if dated {
        assert(h[a] == TimelineItem::Day { line: i as usize });
    }
    if marked {
        assert(h[a + d] == TimelineItem::NewMessages);
    }
}

// ---------------------------------------------------------------------------
// Rooms
// ---------------------------------------------------------------------------

/// A conversation can be come back to; servers, threads and hidden buffers
/// cannot.
pub proof fn conversations_are_come_back_to(b: BufferView)
    ensures
        !b.hidden && b.kind != "server"@ && b.kind != "core"@ && b.matrix_thread_root is None
            ==> is_restorable(b),
        b.hidden ==> !is_restorable(b),
        b.kind == "server"@ || b.kind == "core"@ ==> !is_restorable(b),
        b.plugin == "matrix"@ && b.matrix_room_id is Some && b.matrix_thread_root is Some
            ==> !is_restorable(b),
{
}

/// The conversation that was open last is opened again; without it, the first
/// one is.
pub proof fn the_last_conversation_is_opened_again(
    buffers: Seq<BufferView>,
    name: Seq<char>,
    i: int,
)
    requires
        0 <= i < buffers.len(),
        is_restorable(buffers[i]),
        buffers[i].matrix_room_id is None,
        buffers[i].full_name == name,
        forall|j: int| 0 <= j < i ==> (#[trigger] buffers[j]).full_name != name,
    ensures
        preferred_chat(buffers, Some(name)) == Some(buffers[i].id),
        (forall|j: int| 0 <= j < i ==> !is_restorable(#[trigger] buffers[j])) ==> preferred_chat(
            buffers,
            None,
        ) == Some(buffers[i].id),
{
    let replaced = replaced_rooms(buffers);
    let p = |b: BufferView| is_destination(b, replaced) && b.full_name == name;
    lemma_first_from(buffers, p, 0);
    assert(p(buffers[i]));
    let k = first_index(buffers, p)->0;
    if k < i {
        assert(buffers[k].full_name != name);
    }
    let q = |b: BufferView| is_destination(b, replaced);
    lemma_first_from(buffers, q, 0);
    assert(q(buffers[i]));
    let m = first_index(buffers, q)->0;
    if m < i && forall|j: int| 0 <= j < i ==> !is_restorable(#[trigger] buffers[j]) {
        assert(!is_restorable(buffers[m]));
    }
}

/// Older lines are loaded for the room itself until it has none.
pub proof fn the_room_itself_is_loaded_first(
    buffers: Seq<BufferView>,
    id: Seq<char>,
    exhausted: Set<Seq<char>>,
)
    requires
        !exhausted.contains(id),
    ensures
        load_target(buffers, id, exhausted) == Some(id),
{
    let candidates = seq![id] + predecessors(buffers, id);
    let p = |c: Seq<char>| !exhausted.contains(c);
    assert(candidates[0] == id);
    lemma_first_from(candidates, p, 0);
    assert(p(candidates[0]));
}

/// The history of a room that replaced no other holds all of its lines.
pub proof fn rooms_show_all_their_lines(buffers: Seq<BufferView>, k: int, i: int)
    requires
        crate::laws::given::stands_at(buffers, buffers[k].id, k),
        buffers[k].matrix_predecessor_room_id is None,
        0 <= i < buffers[k].messages.len(),
        buffers[k].messages.len() <= 10_000,
    ensures
        composed_lines(buffers, buffers[k].id).contains(buffers[k].messages[i]),
        composed_lines(buffers, buffers[k].id).len() == buffers[k].messages.len(),
{
    reveal(composed_lines);
    let id = buffers[k].id;
    lemma_all_own(buffers, k);
    let all = all_ranked(buffers, id);
    lemma_all_kept(all);
    let list = merged(all);
    assert(list.contains(all[i]));
    let m = choose|m: int| 0 <= m < list.len() && list[m] == all[i];
    assert(composed_lines(buffers, id)[m] == buffers[k].messages[i]);
}

proof fn lemma_all_own(buffers: Seq<BufferView>, k: int)
    requires
        crate::laws::given::stands_at(buffers, buffers[k].id, k),
        buffers[k].matrix_predecessor_room_id is None,
    ensures
        first_index(buffers, |b: BufferView| b.id == buffers[k].id) == Some(k),
        all_ranked(buffers, buffers[k].id) == own_lines(buffers[k], 0),
{
    let id = buffers[k].id;
    crate::laws::given::buffers_are_found_by_id(buffers, id, k);
    assert(predecessors(buffers, id) =~= Seq::empty());
    assert(oldest_lines(buffers, predecessors(buffers, id), 0) =~= Seq::empty());
    assert(all_ranked(buffers, id) =~= own_lines(buffers[k], 0));
}

proof fn lemma_all_kept(all: Seq<RankedView>)
    requires
        forall|j: int| 0 <= j < all.len() ==> (#[trigger] all[j]).rank == 0,
    ensures
        merged(all).len() == all.len(),
        forall|j: int| 0 <= j < all.len() ==> merged(all).contains(#[trigger] all[j]),
{
    let p = |r: RankedView| is_newest(all, r);
    assert forall|j: int| 0 <= j < all.len() implies p(#[trigger] all[j]) by {
        assert(is_newest(all, all[j]));
    }
    lemma_filter_all(all, p);
    let le = |a: RankedView, b: RankedView| ranked_le(a, b);
    lemma_sorted_by_permutation(all, le);
    assert(merged(all) == crate::seqs::sorted_by(all, le));
    lemma_same_items(all, crate::seqs::sorted_by(all, le));
}

proof fn lemma_same_items<A>(s: Seq<A>, t: Seq<A>)
    requires
        s.to_multiset() == t.to_multiset(),
    ensures
        forall|j: int| 0 <= j < s.len() ==> t.contains(#[trigger] s[j]),
{
    broadcast use vstd::seq_lib::group_to_multiset_ensures;

    assert forall|j: int| 0 <= j < s.len() implies t.contains(#[trigger] s[j]) by {
        assert(s.contains(s[j]));
        assert(s.to_multiset().count(s[j]) > 0);
    }
}

proof fn lemma_filter_all<A>(s: Seq<A>, p: spec_fn(A) -> bool)
    requires
        forall|i: int| 0 <= i < s.len() ==> p(#[trigger] s[i]),
    ensures
        s.filter(p) == s,
    decreases s.len(),
{
    reveal(Seq::filter);
    if s.len() > 0 {
        let front = s.drop_last();
        assert forall|i: int| 0 <= i < front.len() implies p(#[trigger] front[i]) by {
            assert(front[i] == s[i]);
        }
        lemma_filter_all(front, p);
        assert(p(s[s.len() - 1]));
        assert(front.push(s.last()) =~= s);
    } else {
        assert(s.filter(p) =~= s);
    }
}

/// A message that is nothing but a name speaks to its bearer; one that does not
/// hold it does not.
pub proof fn names_speak_to_their_bearer(message: Seq<char>, alias: Seq<char>)
    requires
        alias.len() > 0,
        lowercase(alias).len() > 0,
    ensures
        lowercase(message) == lowercase(alias) ==> mentions_any(message, seq![alias]),
        !crate::text::contains(lowercase(message), lowercase(alias)) ==> !mentions_any(
            message,
            seq![alias],
        ),
{
    let m = lowercase(message);
    let a = lowercase(alias);
    let aliases = seq![alias];
    assert(aliases[0] == alias);
    lemma_find_from(m, a, 0);
    if m == a {
        assert(m.subrange(0, a.len() as int) =~= a);
        assert(occurs_at(m, a, 0));
        assert(find_from(m, a, 0) == Some(0int));
        assert(crate::models::word_from(m, a, 0));
    }
}

} // verus!
