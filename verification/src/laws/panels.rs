//! What the panels show: threads, cards, logs and pictures.
use vstd::prelude::*;
use crate::content::{card_hint, card_title};
use crate::laws::given::{buffers_are_found_by_id, stands_at};
use crate::media::{ImageState, MediaStateView};
use crate::models::{BufferView, CandidateView, LineView, MatrixReplyLineKind, NickView, ProfileView};
use crate::panels::{
    block_title, cluster_card, identities, is_answerable, leading_profile, log_tone,
    media_name, plain_cluster, popup_title, LogTone, ScrollStep,
};
use crate::mentions::mention_label;
use crate::people::{profile_for_nick, sender_label, IdentityView};
use crate::seqs::{first_index, lemma_first_from};
use crate::state::{AppView, SelectedMentionView};
use crate::text::{contains, decimal, is_space};
use crate::threads::{
    live_thread, reply_contexts, stable_snapshot, thread_exists, ContentView,
    ContextView,
};
use crate::timeline::{bears_button, reply_card, thread_on, SummaryView};

verus! {

// ---------------------------------------------------------------------------
// Replies
// ---------------------------------------------------------------------------

/// The first line of an answer says whom and what it answers; its quotes are
/// collected in their order.
pub proof fn answers_say_what_they_answer(lines: Seq<LineView>, line: LineView, event: Seq<char>)
    requires
        line.matrix_event_id == Some(event),
        line.matrix_reply is Some,
    ensures
        ({
            let reply = line.matrix_reply->0;
            let before = reply_contexts(lines);
            let after = reply_contexts(lines.push(line));
            &&& after.contains_key(event)
            &&& !before.contains_key(event) ==> after[event].target_event_id == reply.event_id
                && after[event].sender == reply.sender
            &&& before.contains_key(event) && before[event].sender is Some
                ==> after[event].sender == before[event].sender
            &&& before.contains_key(event) && before[event].target_event_id is Some
                ==> after[event].target_event_id == before[event].target_event_id
            &&& reply.kind == MatrixReplyLineKind::Header ==> after[event].has_header
            &&& !before.contains_key(event) && reply.kind == MatrixReplyLineKind::Quote
                ==> !after[event].has_header && after[event].quotes.len() == 1
            &&& before.contains_key(event) && reply.kind == MatrixReplyLineKind::Quote
                ==> after[event].quotes.drop_last() == before[event].quotes
            &&& forall|other: Seq<char>|
                other != event ==> (#[trigger] after.contains_key(other)
                    <==> before.contains_key(other))
        }),
{
    assert(lines.push(line).drop_last() =~= lines);
    let before = reply_contexts(lines);
    let after = reply_contexts(lines.push(line));
    if before.contains_key(event) && line.matrix_reply->0.kind == MatrixReplyLineKind::Quote {
        assert(after[event].quotes.drop_last() =~= before[event].quotes);
    }
}

/// What an event answers is shown once, with its first line of words.
pub proof fn answers_are_shown_with_their_words(
    line: LineView,
    contexts: Map<Seq<char>, ContextView>,
    event: Seq<char>,
)
    requires
        line.matrix_event_id == Some(event),
    ensures
        line.matrix_reply is None && contexts.contains_key(event) ==> reply_card(
            line,
            contexts,
            false,
        ) == Some(contexts[event]),
        line.matrix_reply is None ==> reply_card(line, contexts, true) is None,
        line.matrix_reply is None && !contexts.contains_key(event) ==> reply_card(
            line,
            contexts,
            false,
        ) is None,
        line.matrix_reply is Some && contexts.contains_key(event) ==> reply_card(
            line,
            contexts,
            true,
        ) == Some(contexts[event]),
{
}

/// The card of an answer is headed by whom it answers, and by the event where
/// nobody is named.
pub proof fn cards_are_headed_by_the_sender(reply: ContextView, sender: Seq<char>, event: Seq<char>)
    ensures
        reply.sender == Some(sender) ==> card_title(reply) == sender_label(sender),
        reply.sender == Some(sender) && sender_label(sender) != sender ==> card_hint(reply) == Some(
            sender,
        ),
        reply.sender == Some(sender) && sender_label(sender) == sender ==> card_hint(reply) is None,
        reply.sender is None && reply.target_event_id == Some(event) && event.len() <= 18
            ==> card_title(reply) == "Reply to "@ + event,
        reply.sender is None && reply.target_event_id == Some(event) ==> card_hint(reply) is Some
            && (card_hint(reply)->0).len() == "Reply target: "@.len() + event.len()
            && (card_hint(reply)->0).skip("Reply target: "@.len() as int) == event,
{
    if reply.sender is None && reply.target_event_id == Some(event) {
        assert(("Reply target: "@ + event).skip("Reply target: "@.len() as int) =~= event);
        crate::laws::conversation::long_ids_are_cut_off(event);
    }
}

// ---------------------------------------------------------------------------
// Threads
// ---------------------------------------------------------------------------

/// The button of a thread stands on the last line of the event it began with.
pub proof fn buttons_stand_on_the_last_line(messages: Seq<LineView>, event: Seq<char>, i: int)
    requires
        0 <= i < messages.len(),
        messages[i].matrix_event_id == Some(event),
        forall|j: int|
            i < j < messages.len() ==> (#[trigger] messages[j]).matrix_event_id != Some(event),
    ensures
        bears_button(messages, event, messages[i].id),
        forall|id: Seq<char>| #[trigger] bears_button(messages, event, id) ==> id == messages[i].id,
{
    let p = |l: LineView| l.matrix_event_id == Some(event);
    crate::seqs::lemma_last_index(messages, p);
    assert(p(messages[i]));
    let k = crate::seqs::last_index(messages, p)->0;
    if i < k {
        assert(messages[k].matrix_event_id != Some(event));
    }
}

/// A line with a button opens the thread of its own event.
pub proof fn buttons_open_the_thread_of_their_event(
    line: LineView,
    buttons: Set<Seq<char>>,
    threads: Map<Seq<char>, SummaryView>,
    event: Seq<char>,
)
    requires
        line.matrix_event_id == Some(event),
    ensures
        buttons.contains(line.id) && threads.contains_key(event) ==> thread_on(line, buttons, threads)
            == Some(threads[event]),
        !buttons.contains(line.id) ==> thread_on(line, buttons, threads) is None,
        !threads.contains_key(event) ==> thread_on(line, buttons, threads) is None,
{
}

/// The picture of a thread is its buffer; once that has gone, or has no lines
/// yet, what was there before stays on view.
pub proof fn threads_stay_on_view(current: BufferView, previous: BufferView)
    ensures
        current.messages.len() > 0 ==> stable_snapshot(Some(current), Some(previous)) == Some(
            current,
        ),
        stable_snapshot(Some(current), None) == Some(current),
        stable_snapshot(None, Some(previous)) == Some(previous),
        current.messages.len() == 0 ==> stable_snapshot(Some(current), Some(previous)) is Some
            && stable_snapshot(Some(current), Some(previous))->0.messages == previous.messages
            && stable_snapshot(Some(current), Some(previous))->0.id == current.id,
        stable_snapshot(None, None) is None,
{
    if current.messages.len() == 0 && previous.messages.len() == 0 {
        assert(current.messages =~= previous.messages);
    }
}

/// A thread that got another id is followed to it: the one on the same
/// connection, in the same room, of the same event.
pub proof fn threads_are_followed(
    buffers: Seq<BufferView>,
    id: Seq<char>,
    picture: BufferView,
    i: int,
    room: Seq<char>,
    root: Seq<char>,
)
    requires
        0 <= i < buffers.len(),
        !thread_exists(buffers, id),
        picture.matrix_room_id == Some(room),
        picture.matrix_thread_root == Some(root),
        buffers[i].plugin == "matrix"@,
        buffers[i].matrix_room_id == Some(room),
        buffers[i].matrix_thread_root == Some(root),
        crate::rooms::on_connection(crate::rooms::connection_prefix(picture.id), buffers[i].id),
        forall|j: int|
            0 <= j < i ==> (#[trigger] buffers[j]).matrix_thread_root != Some(root),
    ensures
        live_thread(buffers, Some(id), Some(picture)) == Some(buffers[i].id),
{
    let p = |b: BufferView| crate::threads::is_thread_of(b, picture);
    lemma_first_from(buffers, p, 0);
    assert(p(buffers[i]));
    let k = first_index(buffers, p)->0;
    if k < i {
        assert(buffers[k].matrix_thread_root != Some(root));
    }
}

/// A thread that is still there keeps its id.
pub proof fn present_threads_stay(
    buffers: Seq<BufferView>,
    id: Seq<char>,
    k: int,
    picture: Option<BufferView>,
)
    requires
        0 <= k < buffers.len(),
        buffers[k].id == id,
        buffers[k].is_thread(),
    ensures
        live_thread(buffers, Some(id), picture) == Some(id),
{
    let p = |b: BufferView| b.id == id && b.is_thread();
    lemma_first_from(buffers, p, 0);
    assert(p(buffers[k]));
}

/// The thread of another room is closed.
pub proof fn threads_of_other_rooms_are_closed(state: AppView, id: Seq<char>, k: int)
    requires
        state.selected_buffer_id == Some(id),
        stands_at(state.buffers, id, k),
        state.open_thread_snapshot is Some,
    ensures
        state.open_thread_snapshot->0.matrix_room_id != state.buffers[k].matrix_room_id
            ==> state.foreign_thread_closed().open_thread_buffer_id is None
            && state.foreign_thread_closed().open_thread_snapshot is None,
        state.open_thread_snapshot->0.matrix_room_id == state.buffers[k].matrix_room_id
            ==> state.foreign_thread_closed() == state,
{
    buffers_are_found_by_id(state.buffers, id, k);
}

// ---------------------------------------------------------------------------
// Messages
// ---------------------------------------------------------------------------

/// A message can be answered where it has an event in the room on view.
pub proof fn events_of_the_room_can_be_answered(line: LineView)
    ensures
        line.matrix_event_id is Some ==> is_answerable(line, false, false),
        line.matrix_event_id is None ==> !is_answerable(line, false, false),
        !is_answerable(line, true, false),
        !is_answerable(line, false, true),
{
}

/// The file of an event is found by the event.
pub proof fn files_are_found_by_their_event(
    messages: Seq<LineView>,
    event: Seq<char>,
    i: int,
)
    requires
        0 <= i < messages.len(),
        messages[i].matrix_event_id == Some(event),
        messages[i].matrix_media is Some,
        forall|j: int| 0 <= j < i ==> (#[trigger] messages[j]).matrix_event_id != Some(event),
    ensures
        media_name(messages, event) == Some(messages[i].matrix_media->0.name),
{
    let p = |l: LineView| l.matrix_event_id == Some(event) && l.matrix_media is Some;
    lemma_first_from(messages, p, 0);
    assert(p(messages[i]));
    let k = first_index(messages, p)->0;
    if k < i {
        assert(messages[k].matrix_event_id != Some(event));
    }
}

/// A block is called by its file, else by its first words.
pub proof fn blocks_are_called_by_what_they_hold(one: ContentView)
    ensures
        one.media is Some ==> block_title(seq![one]) == one.media->0.name,
        one.media is None && one.message.len() > 0 ==> block_title(seq![one]) == one.message,
{
    let content = seq![one];
    assert(content[0] == one);
    let p = |c: ContentView| c.media is Some;
    let q = |c: ContentView| c.message.len() > 0;
    lemma_first_from(content, p, 0);
    lemma_first_from(content, q, 0);
    if one.media is Some {
        assert(p(content[0]));
    } else if one.message.len() > 0 {
        assert(q(content[0]));
    }
}

/// Whoever is mentioned from their card stands at the end of the input, and is
/// noted once.
pub proof fn mentioned_people_stand_at_the_end(state: AppView, c: CandidateView)
    ensures
        ({
            let after = state.mentioning(c);
            let label = mention_label(c);
            &&& state.input_text.len() == 0 ==> after.input_text == label + " "@
            &&& state.input_text.len() > 0 && is_space(state.input_text.last())
                ==> after.input_text == state.input_text + label + " "@
            &&& state.input_text.len() > 0 && !is_space(state.input_text.last())
                ==> after.input_text == state.input_text + " "@ + label + " "@
            &&& after.selected_mentions.len() > 0
            &&& after.selected_mentions.last().user_id == c.user_id
            &&& after.selected_mentions.last().label == label
            &&& forall|i: int|
                0 <= i < after.selected_mentions.len() - 1 ==> (
                #[trigger] after.selected_mentions[i]).user_id != c.user_id
            &&& after.focus_input
        }),
{
    let label = mention_label(c);
    let p = |m: SelectedMentionView| m.user_id != c.user_id && m.label != label;
    let kept = state.selected_mentions.filter(p);
    assert forall|i: int| 0 <= i < kept.len() implies (#[trigger] kept[i]).user_id != c.user_id by {
        state.selected_mentions.lemma_filter_pred(p, i);
    }
    assert(state.input_text + Seq::<char>::empty() =~= state.input_text);
    if state.input_text.len() == 0 {
        assert(state.input_text + label =~= label);
    }
}

// ---------------------------------------------------------------------------
// Nicks
// ---------------------------------------------------------------------------

/// The card of a nick shows its name, its rank and its profile.
pub proof fn nick_cards_show_their_nick(
    nick: NickView,
    buffer_id: Seq<char>,
    server: Seq<char>,
    is_matrix: bool,
    profiles: Seq<ProfileView>,
    candidates: Seq<CandidateView>,
)
    ensures
        ({
            let card = cluster_card(
                plain_cluster(nick),
                buffer_id,
                server,
                is_matrix,
                profiles,
                candidates,
            );
            &&& card.buffer_id == buffer_id
            &&& card.nick == nick.name
            &&& card.prefix == nick.prefix
            &&& card.server == server
            &&& card.is_matrix == is_matrix
            &&& card.matrix == profile_for_nick(profiles, nick.name)
            &&& card.matrix_identities.len() == 0
        }),
{
    let list = identities(plain_cluster(nick), profiles);
    lemma_first_from(list, |d: IdentityView| d.profile is Some && d.profile->0.avatar_mxc is Some, 0);
    lemma_first_from(list, |d: IdentityView| d.profile is Some, 0);
}

/// A person with one picture is shown with it.
pub proof fn the_profile_with_a_picture_leads(list: Seq<IdentityView>, i: int)
    requires
        0 <= i < list.len(),
        list[i].profile is Some,
        list[i].profile->0.avatar_mxc is Some,
        forall|j: int|
            0 <= j < list.len() && j != i && (#[trigger] list[j]).profile is Some
                ==> list[j].profile->0.avatar_mxc is None,
    ensures
        leading_profile(list) == list[i].profile,
{
    let p = |d: IdentityView| d.profile is Some && d.profile->0.avatar_mxc is Some;
    lemma_first_from(list, p, 0);
    assert(p(list[i]));
    let k = first_index(list, p)->0;
    assert(p(list[k]));
}

// ---------------------------------------------------------------------------
// Logs and lists
// ---------------------------------------------------------------------------

/// An entry that tells of a failure looks bad, whatever else it tells.
pub proof fn failures_look_bad(entry: Seq<char>)
    ensures
        contains(entry, "Error"@) ==> log_tone(entry) == LogTone::Bad,
        contains(entry, "failed"@) ==> log_tone(entry) == LogTone::Bad,
        contains(entry, "Disconnected"@) ==> log_tone(entry) == LogTone::Bad,
        contains(entry, "Connected"@) ==> log_tone(entry) != LogTone::Neutral,
        log_tone(entry) == LogTone::Good ==> contains(entry, "Connected"@),
{
}

/// The log is shown and put away; once shown, nothing in it is unread.
pub proof fn logs_are_shown_and_put_away(state: AppView)
    ensures
        state.log_toggled().show_connection_log == !state.show_connection_log,
        !state.log_toggled().connection_log_unread,
        state.log_toggled().buffers == state.buffers,
        state.log_toggled().log_toggled().show_connection_log == state.show_connection_log,
{
}

/// The title of a list says how many proposals there are.
pub proof fn titles_say_how_many(context: Seq<char>, n: nat, m: nat)
    requires
        n != m,
    ensures
        popup_title(context, n) != popup_title(context, m),
{
    crate::laws::texts::different_numbers_look_different(n, m);
    let head = if context == "command"@ {
        "COMMANDS · "@
    } else {
        "ARGUMENTS · "@
    };
    assert((head + decimal(n)).skip(head.len() as int) =~= decimal(n));
    assert((head + decimal(m)).skip(head.len() as int) =~= decimal(m));
}

/// Older lines are loaded at the upper edge, one page at a time, and only where
/// there are any.
pub proof fn older_lines_are_loaded_at_the_edge(
    state: AppView,
    id: Seq<char>,
    lines: int,
    has_older: bool,
    at_top: bool,
)
    ensures
        state.scroll_step(id, lines, has_older, at_top, true) == ScrollStep::Arm,
        !at_top ==> state.scroll_step(id, lines, has_older, at_top, false) == ScrollStep::Nothing,
        !has_older ==> state.scroll_step(id, lines, has_older, at_top, false)
            == ScrollStep::Nothing,
        state.loading_more_buffer_id is Some ==> state.scroll_step(
            id,
            lines,
            has_older,
            at_top,
            false,
        ) == ScrollStep::Nothing,
        at_top && has_older && lines > 0 && state.loading_more_buffer_id is None
            && state.history_top_armed_buffer_ids.contains(id) ==> state.scroll_step(
            id,
            lines,
            has_older,
            at_top,
            false,
        ) == ScrollStep::Load,
{
}

// ---------------------------------------------------------------------------
// Pictures
// ---------------------------------------------------------------------------

/// Pictures that are not there yet begin to load, once each; those that are
/// there stay as they are.
pub proof fn missing_pictures_begin_to_load(state: MediaStateView, urls: Seq<Seq<char>>, url: Seq<char>)
    ensures
        state.image_cache.contains_key(url) ==> state.images_begun(urls).image_cache.contains_key(url)
            && state.images_begun(urls).image_cache[url] == state.image_cache[url],
        !state.image_cache.contains_key(url) && urls.contains(url) ==> state.images_begun(
            urls,
        ).image_cache.contains_key(url) && state.images_begun(urls).image_cache[url]
            == ImageState::Loading && state.images_begun(urls).image_expanded.contains(url),
        state.images_missing(urls).contains(url) <==> urls.contains(url)
            && !state.image_cache.contains_key(url),
        !urls.contains(url) && !state.image_cache.contains_key(url) ==> !state.images_begun(
            urls,
        ).image_cache.contains_key(url),
    decreases urls.len(),
{
    if urls.len() > 0 {
        let front = urls.drop_last();
        missing_pictures_begin_to_load(state, front, url);
        missing_pictures_begin_to_load(state, front, urls.last());
        assert(urls.contains(url) <==> front.contains(url) || urls.last() == url) by {
            if urls.contains(url) {
                let k = choose|k: int| 0 <= k < urls.len() && urls[k] == url;
                if k < front.len() {
                    assert(front[k] == url);
                }
            }
            if front.contains(url) {
                let k = choose|k: int| 0 <= k < front.len() && front[k] == url;
                assert(urls[k] == url);
            }
            assert(urls[urls.len() - 1] == urls.last());
        }
        let before = state.images_missing(front);
        let last = urls.last();
        let after = state.images_missing(urls);
        if after == before.push(last) {
            assert(after.contains(url) <==> before.contains(url) || last == url) by {
                assert(after[before.len() as int] == last);
                if before.contains(url) {
                    let k = choose|k: int| 0 <= k < before.len() && before[k] == url;
                    assert(after[k] == url);
                }
                if after.contains(url) {
                    let k = choose|k: int| 0 <= k < after.len() && after[k] == url;
                    if k < before.len() {
                        assert(before[k] == url);
                    }
                }
            }
        }
    }
}

/// Of the pictures of a message those are shown that are unfolded, and none
/// where pictures are switched off.
pub proof fn unfolded_pictures_are_shown(
    state: MediaStateView,
    t: crate::content::PreviewTargetsView,
    i: int,
)
    requires
        0 <= i < t.image_urls.len(),
    ensures
        state.image_expanded.contains(t.image_urls[i]) ==> state.shown_images(t, true).contains(
            t.image_urls[i],
        ),
        t.matrix_image_key is None && !state.image_expanded.contains(t.image_urls[i])
            ==> !state.shown_images(t, true).contains(t.image_urls[i]),
        state.shown_images(t, false).len() == 0,
        t.matrix_image_key is Some ==> state.shown_images(t, true).contains(t.matrix_image_key->0),
{
    let p = |u: Seq<char>| state.image_expanded.contains(u);
    let linked = t.image_urls.filter(p);
    let shown = state.shown_images(t, true);
    if p(t.image_urls[i]) {
        t.image_urls.lemma_filter_contains(p, i);
        let k = choose|k: int| 0 <= k < linked.len() && linked[k] == t.image_urls[i];
        assert(shown[k] == t.image_urls[i]);
    } else if t.matrix_image_key is None && shown.contains(t.image_urls[i]) {
        let k = choose|k: int| 0 <= k < linked.len() && linked[k] == t.image_urls[i];
        t.image_urls.lemma_filter_pred(p, k);
    }
    if t.matrix_image_key is Some {
        assert(shown[linked.len() as int] == t.matrix_image_key->0);
    }
}

/// The same holds of pages.
pub proof fn unfolded_pages_are_shown(
    state: MediaStateView,
    t: crate::content::PreviewTargetsView,
    i: int,
)
    requires
        0 <= i < t.preview_urls.len(),
    ensures
        state.preview_expanded.contains(t.preview_urls[i]) <==> state.shown_pages(t, true).contains(
            t.preview_urls[i],
        ),
        state.shown_pages(t, false).len() == 0,
{
    let p = |u: Seq<char>| state.preview_expanded.contains(u);
    let pages = t.preview_urls.filter(p);
    if p(t.preview_urls[i]) {
        t.preview_urls.lemma_filter_contains(p, i);
    } else if pages.contains(t.preview_urls[i]) {
        let k = choose|k: int| 0 <= k < pages.len() && pages[k] == t.preview_urls[i];
        t.preview_urls.lemma_filter_pred(p, k);
    }
}

/// A picture of a room is asked for where it is wanted and not there.
pub proof fn pictures_of_a_room_are_asked_for(
    state: MediaStateView,
    t: crate::content::PreviewTargetsView,
    key: Seq<char>,
)
    requires
        t.matrix_image_key == Some(key),
    ensures
        !state.image_cache.contains_key(key) ==> state.wants_matrix(t, true, true),
        state.image_cache.contains_key(key) ==> !state.wants_matrix(t, true, true),
        !state.wants_matrix(t, false, true),
        !state.wants_matrix(t, true, false),
        !state.image_cache.contains_key(key) && t.image_urls.len() == 0 ==> state.message_shown(
            t,
            true,
            true,
        ).pending_matrix_media.contains(key),
        !state.image_cache.contains_key(key) ==> state.avatar_shown(
            key,
            true,
        ).pending_matrix_media.contains(key),
        state.avatar_shown(key, false).image_cache == state.image_cache,
        state.avatar_shown(key, false).avatar_image_keys.contains(key),
{
}

} // verus!
