//! Writing, sending and completing.
use vstd::prelude::*;
use vstd::utf8::encode_utf8;
use crate::completion::{
    completed, is_match, last_trigger, match_le, offered, query_at, ranked_matches, KeyedView,
};
use crate::composer::{chosen, command_kind, history_with, now_playing, CommandKindView};
use crate::connection::ConnectionView;
use crate::editing::{edited, outcome, EditChoice};
use crate::encoding::{base64url, json_char, json_string};
use crate::keys::{composer_choice, selection_end, ComposerKeys, ComposerStep};
use crate::laws::given::{buffers_are_found_by_id, stands_at};
use crate::laws::texts::trimmed_texts_stay;
use crate::mentions::{last_word_start, mention_label, nicks_like};
use crate::models::{CandidateView, NickView};
use crate::seqs::{first_index, lemma_first_from, lemma_sorted_by_permutation};
use crate::state::{owner_of, ActionView, AppView};
use crate::text::{
    after_byte, byte_len, contains, is_space, joined_by, lemma_head_boundary, lemma_rfind_from,
    lowercase, occurs_at, rfind_from, starts_with, strip_prefix, trim, trim_start,
};

verus! {

// ---------------------------------------------------------------------------
// Whom a buffer belongs to
// ---------------------------------------------------------------------------

/// Whether a buffer belongs to a connection, under an id of its own there.
pub open spec fn is_owned(
    connections: Seq<ConnectionView>,
    id: Seq<char>,
    i: int,
    raw_id: Seq<char>,
) -> bool {
    &&& 0 <= i < connections.len()
    &&& id == connections[i].prefix + "/"@ + raw_id
    &&& forall|j: int|
        0 <= j < i ==> !starts_with(id, (#[trigger] connections[j]).prefix + "/"@)
}

/// What is sent to a buffer goes to its connection, under its id there.
pub proof fn owners_are_found(
    connections: Seq<ConnectionView>,
    id: Seq<char>,
    i: int,
    raw_id: Seq<char>,
)
    requires
        is_owned(connections, id, i, raw_id),
    ensures
        owner_of(connections, id) == Some((connections[i].prefix, raw_id)),
{
    let p = |c: ConnectionView| strip_prefix(id, c.prefix + "/"@) is Some;
    let head = connections[i].prefix + "/"@;
    assert(id.subrange(0, head.len() as int) =~= head);
    assert(id.skip(head.len() as int) =~= raw_id);
    assert(p(connections[i]));
    lemma_first_from(connections, p, 0);
    let k = first_index(connections, p)->0;
    if k < i {
        assert(!starts_with(id, connections[k].prefix + "/"@));
    }
    if i < k {
        assert(!p(connections[i]));
    }
}

// ---------------------------------------------------------------------------
// Sending
// ---------------------------------------------------------------------------

/// What is typed is sent, as it was typed, to the buffer on view, and stands
/// last among the things that were sent.
pub proof fn typed_messages_are_sent(state: AppView, id: Seq<char>, i: int, raw_id: Seq<char>)
    requires
        state.selected_buffer_id == Some(id),
        is_owned(state.connections, id, i, raw_id),
        state.input_text.len() > 0,
        state.input_text[0] != '/',
        state.reply_target is None,
        state.selected_mentions.len() == 0,
    ensures
        ({
            let after = state.input_sent();
            &&& after.outbox == state.outbox.push(
                ActionView::SendMessage {
                    conn: state.connections[i].prefix,
                    raw_id,
                    text: state.input_text,
                },
            )
            &&& after.input_text.len() == 0
            &&& after.command_history.len() > 0 && after.command_history.last() == state.input_text
            &&& after.history_index is None
            &&& after.selected_buffer_id == state.selected_buffer_id
            &&& after.buffers == state.buffers
        }),
{
    owners_are_found(state.connections, id, i, raw_id);
    lemma_not_command(state.input_text);
    sent_messages_are_remembered(state.command_history, state.input_text);
}

proof fn lemma_not_command(text: Seq<char>)
    requires
        text.len() > 0,
        text[0] != '/',
    ensures
        !starts_with(text, "/"@),
{
    reveal_strlit("/");
    if starts_with(text, "/"@) {
        assert(text.subrange(0, 1)[0] == text[0]);
    }
}

/// What was sent is remembered last, once where it repeats the message before.
pub proof fn sent_messages_are_remembered(history: Seq<Seq<char>>, message: Seq<char>)
    ensures
        history_with(history, message).len() > 0,
        history_with(history, message).last() == message,
        history.len() > 0 && history.last() == message ==> history_with(history, message)
            == history,
        history.len() < 100 && (history.len() == 0 || history.last() != message) ==> history_with(
            history,
            message,
        ) == history.push(message),
{
    let long = history.push(message);
    assert(long.last() == message);
    assert(history.len() >= 100 ==> long.skip(1).last() == message);
}

/// An answer is sent as one to the chosen event, with the words that were
/// typed, and is then over.
pub proof fn answers_are_sent_to_their_event(
    state: AppView,
    id: Seq<char>,
    i: int,
    raw_id: Seq<char>,
)
    requires
        state.selected_buffer_id == Some(id),
        is_owned(state.connections, id, i, raw_id),
        state.input_text.len() > 0,
        state.reply_target is Some,
        state.reply_target->0.buffer_id == id,
    ensures
        state.input_sent().outbox == state.outbox.push(
            ActionView::SendMessage {
                conn: state.connections[i].prefix,
                raw_id,
                text: "/reply "@ + state.reply_target->0.matrix_event_id + " "@ + state.input_text,
            },
        ),
        state.input_sent().reply_target is None,
{
    owners_are_found(state.connections, id, i, raw_id);
}

/// A command is sent as it was typed, and the buffers are asked for again,
/// since it may have opened or closed one.
pub proof fn commands_are_sent_as_typed(state: AppView, id: Seq<char>, i: int, raw_id: Seq<char>)
    requires
        state.selected_buffer_id == Some(id),
        is_owned(state.connections, id, i, raw_id),
        starts_with(state.input_text, "/"@),
        state.reply_target is None,
        command_kind(state.input_text) is Plain || command_kind(state.input_text) is Switch,
    ensures
        state.input_sent().outbox == state.outbox.push(
            ActionView::SendMessage {
                conn: state.connections[i].prefix,
                raw_id,
                text: state.input_text,
            },
        ).push(ActionView::FetchBufferList { conn: state.connections[i].prefix }),
{
    owners_are_found(state.connections, id, i, raw_id);
    reveal_strlit("/");
    assert(state.input_text.len() > 0);
}

/// A message that mentions people of a Matrix room is sent with their ids.
pub proof fn mentions_are_sent_with_ids(
    state: AppView,
    id: Seq<char>,
    i: int,
    raw_id: Seq<char>,
    k: int,
    user_id: Seq<char>,
)
    requires
        state.selected_buffer_id == Some(id),
        is_owned(state.connections, id, i, raw_id),
        stands_at(state.buffers, id, k),
        state.buffers[k].plugin == "matrix"@,
        state.input_text.len() > 0,
        state.input_text[0] != '/',
        state.reply_target is None,
        state.selected_mentions.len() == 1,
        state.selected_mentions[0].user_id == user_id,
    ensures
        state.input_sent().outbox == state.outbox.push(
            ActionView::SendMessage {
                conn: state.connections[i].prefix,
                raw_id,
                text: "/matrix-send "@ + base64url(
                    encode_utf8(
                        "{\"body\":"@ + json_string(state.input_text) + ",\"user_ids\":["@
                            + json_string(user_id) + "]}"@,
                    ),
                ),
            },
        ),
        state.input_sent().selected_mentions.len() == 0,
{
    owners_are_found(state.connections, id, i, raw_id);
    buffers_are_found_by_id(state.buffers, id, k);
    lemma_not_command(state.input_text);
    let ids = crate::composer::mentioned_ids(state.selected_mentions);
    let list = ids.map_values(|u: Seq<char>| json_string(u));
    assert(list.len() == 1 && list[0] == json_string(user_id));
    assert(joined_by(list, ","@) == json_string(user_id));
}

/// A text of ordinary characters stands in quotes as it is.
pub proof fn ordinary_texts_stand_in_quotes(text: Seq<char>)
    requires
        forall|i: int|
            0 <= i < text.len() ==> #[trigger] text[i] != '"' && text[i] != '\\' && text[i] >= ' ',
    ensures
        json_string(text) == seq!['"'] + text + seq!['"'],
{
    lemma_ordinary(text);
}

proof fn lemma_ordinary(text: Seq<char>)
    requires
        forall|i: int|
            0 <= i < text.len() ==> #[trigger] text[i] != '"' && text[i] != '\\' && text[i] >= ' ',
    ensures
        text.map_values(|c: char| json_char(c)).flatten() == text,
    decreases text.len(),
{
    let list = text.map_values(|c: char| json_char(c));
    if text.len() == 0 {
        assert(list.flatten() =~= text);
    } else {
        let rest = text.skip(1);
        assert forall|i: int| 0 <= i < rest.len() implies #[trigger] rest[i] != '"' && rest[i]
            != '\\' && rest[i] >= ' ' by {
            assert(rest[i] == text[i + 1]);
        }
        lemma_ordinary(rest);
        assert(list.drop_first() =~= rest.map_values(|c: char| json_char(c)));
        assert(list.first() == seq![text[0]]);
        assert(seq![text[0]] + rest =~= text);
    }
}

/// The first word behind a command that goes elsewhere is where it goes.
pub proof fn going_elsewhere_names_the_place(word: Seq<char>)
    requires
        word.len() > 0,
        forall|j: int| 0 <= j < word.len() ==> !is_space(#[trigger] word[j]),
    ensures
        command_kind("/query "@ + word) == CommandKindView::Switch(Some(word)),
        command_kind("/join "@ + word) == CommandKindView::Switch(Some(word)),
        command_kind("/j "@ + word) == CommandKindView::Switch(Some(word)),
{
    reveal_strlit("/query ");
    reveal_strlit("/join ");
    reveal_strlit("/j ");
    lemma_strip("/query "@, word);
    lemma_strip("/join "@, word);
    lemma_strip("/j "@, word);
    lemma_other("/join "@ + word, "/query "@, 1);
    lemma_other("/join "@ + word, "/j "@, 2);
    lemma_other("/j "@ + word, "/query "@, 1);
    lemma_other("/j "@ + word, "/join "@, 2);
    assert(!is_space(word[0]));
    assert(trim_start(word) == word);
    crate::text::lemma_word_prefix(word, word.len() as int);
    assert(word.take(word.len() as int) =~= word);
}

proof fn lemma_strip(head: Seq<char>, rest: Seq<char>)
    ensures
        starts_with(head + rest, head),
        strip_prefix(head + rest, head) == Some(rest),
{
    assert((head + rest).subrange(0, head.len() as int) =~= head);
    assert((head + rest).skip(head.len() as int) =~= rest);
}

proof fn lemma_other(text: Seq<char>, head: Seq<char>, k: int)
    requires
        0 <= k < head.len(),
        k < text.len(),
        text[k] != head[k],
    ensures
        strip_prefix(text, head) is None,
{
    if starts_with(text, head) {
        assert(text.subrange(0, head.len() as int)[k] == text[k]);
    }
}

/// Asking for the state of the machine or for the music sends nothing by
/// itself.
pub proof fn questions_about_oneself_send_nothing(state: AppView, id: Seq<char>)
    requires
        state.selected_buffer_id == Some(id),
        state.reply_target is None,
    ensures
        state.input_text == "/sysinfo"@ ==> state.input_sent().outbox == state.outbox.push(
            ActionView::GatherSystemInfo { buffer_id: id },
        ),
        state.input_text == "/np"@ ==> state.input_sent().outbox == state.outbox.push(
            ActionView::NowPlaying { buffer_id: id, custom: None },
        ),
{
    reveal_strlit("/sysinfo");
    reveal_strlit("/systeminfo");
    reveal_strlit("/np");
    reveal_strlit("/query ");
    reveal_strlit("/join ");
    reveal_strlit("/j ");
    reveal_strlit("/");
    trimmed_texts_stay("/sysinfo"@);
    trimmed_texts_stay("/np"@);
    assert("/sysinfo"@.subrange(0, 1) =~= "/"@);
    assert("/np"@.subrange(0, 1) =~= "/"@);
    lemma_other("/sysinfo"@, "/query "@, 1);
    lemma_other("/sysinfo"@, "/join "@, 1);
    lemma_other("/sysinfo"@, "/j "@, 1);
    lemma_other("/np"@, "/query "@, 1);
    lemma_other("/np"@, "/join "@, 1);
    lemma_other("/np"@, "/j "@, 1);
    assert("/np"@ != "/sysinfo"@);
    assert("/np"@ != "/systeminfo"@);
    assert("/np"@.subrange(0, 3) =~= "/np"@);
    assert("/np"@.skip(3) =~= Seq::empty());
    assert(trim("/np"@.skip(3)) =~= Seq::empty());
}

/// The music is announced with its title first, and its source and address
/// where it has them.
pub proof fn music_is_announced_by_title(track: Seq<char>, source: Seq<char>, url: Seq<char>)
    ensures
        now_playing(track, Seq::empty(), Seq::empty()) == track + " 🎵"@,
        source.len() > 0 ==> now_playing(track, source, Seq::empty()) == track + " @ "@ + source
            + " 🎵"@,
        url.len() > 0 ==> now_playing(track, Seq::empty(), url) == track + " 🎵"@ + " "@ + url,
{
    assert(track + Seq::<char>::empty() + " 🎵"@ + Seq::<char>::empty() =~= track + " 🎵"@);
    assert(track + (" @ "@ + source) + " 🎵"@ + Seq::<char>::empty() =~= track + " @ "@ + source
        + " 🎵"@);
    assert(track + Seq::<char>::empty() + " 🎵"@ + (" "@ + url) =~= track + " 🎵"@ + " "@ + url);
}

/// A text or a command for a buffer goes to its connection.
pub proof fn texts_go_to_their_buffer(
    state: AppView,
    id: Seq<char>,
    i: int,
    raw_id: Seq<char>,
    text: Seq<char>,
)
    requires
        is_owned(state.connections, id, i, raw_id),
    ensures
        state.text_sent(id, text).outbox == state.outbox.push(
            ActionView::SendMessage { conn: state.connections[i].prefix, raw_id, text },
        ),
        state.command_sent(id, text).outbox == state.outbox.push(
            ActionView::SendMessage { conn: state.connections[i].prefix, raw_id, text },
        ).push(ActionView::FetchBufferList { conn: state.connections[i].prefix }),
{
    owners_are_found(state.connections, id, i, raw_id);
}

// ---------------------------------------------------------------------------
// What was sent before
// ---------------------------------------------------------------------------

/// Going back shows the message before, the last one first; going forth shows
/// the one behind, and clears the input behind the last.
pub proof fn older_messages_come_back(state: AppView)
    requires
        0 < state.command_history.len() <= usize::MAX,
        state.history_index is Some ==> state.history_index->0 < state.command_history.len(),
    ensures
        ({
            let n = state.command_history.len();
            let back = state.history_cycled(-1);
            let forth = state.history_cycled(1);
            &&& state.history_index is None ==> back.input_text == state.command_history[n - 1]
            &&& state.history_index is Some && state.history_index->0 > 0 ==> back.input_text
                == state.command_history[state.history_index->0 - 1]
            &&& state.history_index == Some(0usize) ==> back.input_text == state.command_history[0]
            &&& state.history_index is Some && state.history_index->0 + 1 < n ==> forth.input_text
                == state.command_history[state.history_index->0 + 1]
            &&& state.history_index is Some && state.history_index->0 + 1 == n
                ==> forth.input_text.len() == 0 && forth.history_index is None
            &&& back.command_history == state.command_history
        }),
{
}

// ---------------------------------------------------------------------------
// Completing words
// ---------------------------------------------------------------------------

/// The last word of the input begins behind the last space.
pub proof fn the_last_word_stands_behind_the_last_space(head: Seq<char>, word: Seq<char>)
    requires
        forall|i: int| 0 <= i < word.len() ==> #[trigger] word[i] != ' ',
    ensures
        last_word_start(head + " "@ + word) == head.len() + 1,
        last_word_start(word) == 0,
{
    reveal_strlit(" ");
    let text = head + " "@ + word;
    let at = head.len() as int;
    assert(text.subrange(at, at + 1) =~= " "@);
    lemma_rfind_from(text, " "@, text.len() - 1);
    assert(occurs_at(text, " "@, at));
    let found = rfind_from(text, " "@, text.len() - 1)->0;
    if found > at {
        assert(text.subrange(found, found + 1)[0] == text[found]);
        assert(text[found] == word[found - at - 1]);
    }
    lemma_rfind_from(word, " "@, word.len() - 1);
    match rfind_from(word, " "@, word.len() - 1) {
        Some(k) => {
            assert(word.subrange(k, k + 1)[0] == word[k]);
        },
        None => {},
    }
}

/// A completed word takes the place of what was typed of it. A nick at the
/// beginning is addressed with a colon.
pub proof fn completed_words_replace_what_was_typed(
    state: AppView,
    head: Seq<char>,
    word: Seq<char>,
    matches: Seq<Seq<char>>,
)
    requires
        matches.len() > 0,
        word.len() > 0,
        word[0] != ':',
        forall|i: int| 0 <= i < word.len() ==> #[trigger] word[i] != ' ',
    ensures
        state.input_text == word ==> state.first_match(matches).input_text == matches[0] + ": "@,
        state.input_text == head + " "@ + word ==> state.first_match(matches).input_text == head
            + " "@ + matches[0] + " "@,
{
    the_last_word_stands_behind_the_last_space(head, word);
    reveal_strlit(":");
    if starts_with(word, ":"@) {
        assert(word.subrange(0, 1)[0] == word[0]);
    }
    if state.input_text == word {
        assert(word.take(0) =~= Seq::empty());
        assert(word.skip(0) =~= word);
        assert(byte_len(Seq::<char>::empty()) == 0);
        assert(Seq::<char>::empty() + matches[0] + ": "@ =~= matches[0] + ": "@);
    }
    if state.input_text == head + " "@ + word {
        reveal_strlit(" ");
        let text = head + " "@ + word;
        let n = head.len() as int + 1;
        assert(text.take(n) =~= head + " "@);
        assert(text.skip(n) =~= word);
        crate::text::lemma_byte_len_positive(head + " "@);
    }
}

/// Exactly the nicks that begin with a word, in any case of letters, complete
/// it.
pub proof fn nicks_that_begin_alike_complete_a_word(
    nicks: Seq<NickView>,
    word: Seq<char>,
    i: int,
)
    ensures
        0 <= i < nicks.len() && starts_with(lowercase(nicks[i].name), lowercase(word))
            ==> nicks_like(nicks, word).contains(nicks[i].name),
        0 <= i < nicks_like(nicks, word).len() ==> starts_with(
            lowercase(nicks_like(nicks, word)[i]),
            lowercase(word),
        ),
{
    let p = |n: NickView| starts_with(lowercase(n.name), lowercase(word));
    let kept = nicks.filter(p);
    let names = nicks_like(nicks, word);
    if 0 <= i < nicks.len() && p(nicks[i]) {
        nicks.lemma_filter_contains(p, i);
        let k = choose|k: int| 0 <= k < kept.len() && kept[k] == nicks[i];
        assert(names[k] == nicks[i].name);
    }
    if 0 <= i < names.len() {
        nicks.lemma_filter_pred(p, i);
    }
}

// ---------------------------------------------------------------------------
// Completing commands
// ---------------------------------------------------------------------------

/// A completion of a command stands where the word stood, before all that came
/// behind it, with the cursor behind it.
pub proof fn completed_commands_replace_the_word(
    head: Seq<char>,
    word: Seq<char>,
    matched: Seq<char>,
)
    requires
        byte_len(head + word) <= usize::MAX,
    ensures
        completed(
            head + word,
            byte_len(head + word) as int,
            byte_len(head) as int,
            word,
            matched,
            false,
        ) == Some((head + matched, (head + matched).len() as int)),
        completed(
            head + word,
            byte_len(head + word) as int,
            byte_len(head) as int,
            word,
            matched,
            true,
        ) == Some((head + matched + " "@, (head + matched).len() as int + 1)),
{
    let input = head + word;
    let h = head.len() as int;
    let n = input.len() as int;
    assert(input.take(h) =~= head);
    assert(input.skip(h) =~= word);
    assert(input.take(n) =~= input);
    assert(input.skip(n) =~= Seq::empty());
    lemma_head_boundary(input, h);
    lemma_head_boundary(input, n);
    lemma_head_boundary(word, word.len() as int);
    assert(word.take(word.len() as int) =~= word);
    crate::text::lemma_byte_len_concat(head, word);
    let suffix = Seq::<char>::empty();
    assert(after_byte(input, byte_len(input) as int) == suffix);
    assert(head + matched + suffix =~= head + matched);
    assert(head + matched + " "@ + suffix =~= head + matched + " "@);
    reveal_strlit(" ");
    assert(!starts_with(suffix, " "@));
}

/// The completion that is accepted is the given one, or else the chosen one.
pub proof fn the_chosen_one_is_accepted(index: Option<usize>, current: usize, len: nat)
    requires
        len > 0,
    ensures
        index is Some && index->0 < len ==> chosen(index, current, len) == index->0,
        index is None && current < len ==> chosen(index, current, len) == current,
        0 <= chosen(index, current, len) < len,
{
}

// ---------------------------------------------------------------------------
// Mentions
// ---------------------------------------------------------------------------

/// A mention that is being typed is what stands behind the sign at the
/// beginning of a word.
pub proof fn mentions_are_asked_for_behind_the_sign(head: Seq<char>, query: Seq<char>)
    requires
        head.len() > 0 ==> is_space(head.last()),
        forall|i: int| 0 <= i < query.len() ==> #[trigger] query[i] != '@',
        query.len() > 0 ==> !is_space(query[0]),
        query.len() <= 80,
    ensures
        ({
            let text = head + "@"@ + query;
            query_at(text, text.len() as int) == Some(
                (byte_len(head) as int, byte_len(text) as int, query),
            )
        }),
{
    reveal_strlit("@");
    let text = head + "@"@ + query;
    let at = head.len() as int;
    lemma_trigger(text, at, text.len() as int);
    assert(text.take(at) =~= head);
    assert(text.take(text.len() as int) =~= text);
    assert(text.subrange(at + 1, text.len() as int) =~= query);
}

proof fn lemma_trigger(text: Seq<char>, at: int, n: int)
    requires
        0 <= at < n <= text.len(),
        text[at] == '@',
        at == 0 || is_space(text[at - 1]),
        forall|i: int| at < i < n ==> #[trigger] text[i] != '@',
    ensures
        last_trigger(text, n) == Some(at),
    decreases n,
{
    if n - 1 > at {
        assert(text[n - 1] != '@');
        lemma_trigger(text, at, n - 1);
    }
}

/// Everyone on offer matches what was typed, by name or by id.
pub proof fn offered_people_match_the_query(list: Seq<KeyedView>, query: Seq<char>, i: int)
    requires
        query.len() > 0,
        0 <= i < offered(list, query).len(),
    ensures
        exists|k: int|
            0 <= k < list.len() && (#[trigger] list[k]).candidate == offered(list, query)[i] && (
            contains(list[k].name, query) || contains(list[k].id, query)),
{
    broadcast use vstd::seq_lib::group_to_multiset_ensures;

    let p = |k: KeyedView| is_match(k, query);
    let le = |a: KeyedView, b: KeyedView| match_le(a, b, query);
    let kept = list.filter(p);
    let ranked = ranked_matches(list, query);
    lemma_sorted_by_permutation(kept, le);
    let one = ranked[i];
    assert(offered(list, query)[i] == one.candidate);
    assert(ranked.to_multiset().count(one) > 0);
    assert(kept.to_multiset().count(one) > 0);
    assert(kept.contains(one));
    let j = choose|j: int| 0 <= j < kept.len() && kept[j] == one;
    list.lemma_filter_pred(p, j);
    list.lemma_filter_contains_rev(p, one);
    let k = choose|k: int| 0 <= k < list.len() && list[k] == one;
    assert(list[k].candidate == offered(list, query)[i]);
}

/// Where at most eight people match, all of them are offered.
pub proof fn few_matches_are_all_offered(list: Seq<KeyedView>, query: Seq<char>, i: int)
    requires
        query.len() > 0,
        0 <= i < list.len(),
        contains(list[i].name, query) || contains(list[i].id, query),
        list.len() <= 8,
    ensures
        offered(list, query).contains(list[i].candidate),
{
    broadcast use vstd::seq_lib::group_to_multiset_ensures;

    let p = |k: KeyedView| is_match(k, query);
    let le = |a: KeyedView, b: KeyedView| match_le(a, b, query);
    let kept = list.filter(p);
    let ranked = ranked_matches(list, query);
    lemma_sorted_by_permutation(kept, le);
    list.lemma_filter_contains(p, i);
    list.lemma_filter_len(p);
    assert(kept.to_multiset().count(list[i]) > 0);
    assert(ranked.to_multiset().count(list[i]) > 0);
    assert(ranked.contains(list[i]));
    let k = choose|k: int| 0 <= k < ranked.len() && ranked[k] == list[i];
    assert(ranked.len() <= 8);
    assert(offered(list, query)[k] == list[i].candidate);
}

/// A person is mentioned by their name behind the sign, which is not doubled.
pub proof fn people_are_mentioned_by_name(c: CandidateView)
    ensures
        c.display_name.len() > 0 && c.display_name[0] == '@' ==> mention_label(c)
            == c.display_name,
        c.display_name.len() == 0 || c.display_name[0] != '@' ==> mention_label(c) == "@"@
            + c.display_name,
{
    reveal_strlit("@");
    if c.display_name.len() > 0 {
        assert(c.display_name.subrange(0, 1)[0] == c.display_name[0]);
        if c.display_name[0] == '@' {
            assert(c.display_name.subrange(0, 1) =~= "@"@);
        }
    }
}

/// A mention that is accepted stands where it was being typed, and is kept with
/// the id of the person.
pub proof fn accepted_mentions_stand_in_the_input(
    state: AppView,
    head: Seq<char>,
    typed: Seq<char>,
    tail: Seq<char>,
    index: usize,
)
    requires
        state.input_text == head + typed + tail,
        state.mention_completion is Some,
        state.mention_completion->0.trigger_byte_idx == byte_len(head),
        state.mention_completion->0.cursor_byte_idx == byte_len(head + typed),
        index < state.mention_completion->0.matches.len(),
    ensures
        ({
            let c = state.mention_completion->0.matches[index as int];
            let after = state.mention_accepted(Some(index));
            &&& after.input_text == head + mention_label(c) + " "@ + tail
            &&& after.mention_completion is None
            &&& after.selected_mentions.len() > 0
            &&& after.selected_mentions.last().user_id == c.user_id
            &&& after.selected_mentions.last().label == mention_label(c)
        }),
{
    let text = head + typed + tail;
    let h = head.len() as int;
    let t = (head + typed).len() as int;
    assert(text.take(h) =~= head);
    assert(text.take(t) =~= head + typed);
    assert(text.skip(t) =~= tail);
    lemma_head_boundary(text, h);
    lemma_head_boundary(text, t);
}

// ---------------------------------------------------------------------------
// Keys and the edit menu
// ---------------------------------------------------------------------------

/// An open list is moved through with the arrows, accepted with Tab or Enter and
/// closed with Escape; without one, Tab completes and the arrows go through what
/// was sent.
pub proof fn keys_do_what_they_say(command_open: bool, mention_open: bool)
    ensures
        ({
            let none = ComposerKeys {
                tab: false,
                enter: false,
                up: false,
                down: false,
                escape: false,
            };
            let up = ComposerKeys { up: true, ..none };
            let down = ComposerKeys { down: true, ..none };
            let tab = ComposerKeys { tab: true, ..none };
            let enter = ComposerKeys { enter: true, ..none };
            let escape = ComposerKeys { escape: true, ..none };
            &&& composer_choice(command_open, mention_open, none) == ComposerStep::Nothing
            &&& composer_choice(true, mention_open, up) == ComposerStep::PreviousCommand
            &&& composer_choice(true, mention_open, down) == ComposerStep::NextCommand
            &&& composer_choice(true, mention_open, tab) == ComposerStep::AcceptCommand
            &&& composer_choice(true, mention_open, enter) == ComposerStep::AcceptCommand
            &&& composer_choice(true, mention_open, escape) == ComposerStep::CancelCommand
            &&& composer_choice(false, true, up) == ComposerStep::PreviousMention
            &&& composer_choice(false, true, down) == ComposerStep::NextMention
            &&& composer_choice(false, true, tab) == ComposerStep::AcceptMention
            &&& composer_choice(false, true, enter) == ComposerStep::AcceptMention
            &&& composer_choice(false, true, escape) == ComposerStep::CancelMention
            &&& composer_choice(false, false, tab) == ComposerStep::Complete
            &&& composer_choice(false, false, up) == ComposerStep::OlderMessage
            &&& composer_choice(false, false, down) == ComposerStep::NewerMessage
        }),
{
}

/// Cutting and copying give the selected text; cutting and deleting take it
/// out; pasting puts the text in its place; selecting everything selects it.
pub proof fn the_edit_menu_edits(text: Seq<char>, start: int, end: int, contents: String)
    requires
        0 <= start <= end <= text.len() <= usize::MAX,
        start + contents@.len() <= usize::MAX,
    ensures
        outcome(text, start, end, EditChoice::Cut).copied == Some(text.subrange(start, end)),
        outcome(text, start, end, EditChoice::Copy).copied == Some(text.subrange(start, end)),
        outcome(text, start, end, EditChoice::Delete).copied is None,
        outcome(text, start, end, EditChoice::Paste(contents)).copied is None,
        edited(text, start, end, EditChoice::Cut) == text.take(start) + text.skip(end),
        edited(text, start, end, EditChoice::Delete) == text.take(start) + text.skip(end),
        edited(text, start, end, EditChoice::Copy) == text,
        edited(text, start, end, EditChoice::SelectAll) == text,
        edited(text, start, end, EditChoice::Paste(contents)) == text.take(start) + contents@
            + text.skip(end),
        outcome(text, start, end, EditChoice::SelectAll).selection == Some(
            (0usize, text.len() as usize),
        ),
        outcome(text, start, end, EditChoice::Copy).selection is None,
        outcome(text, start, end, EditChoice::Paste(contents)).selection == Some(
            ((start + contents@.len()) as usize, (start + contents@.len()) as usize),
        ),
        outcome(text, start, end, EditChoice::Cut).selection == Some(
            (start as usize, start as usize),
        ),
{
    assert(text.take(start) + Seq::<char>::empty() + text.skip(end) =~= text.take(start)
        + text.skip(end));
}

/// A selection is read from its left end to its right end, whichever way it was
/// made, and never beyond the text.
pub proof fn selections_are_read_from_the_left(a: usize, b: usize, len: nat)
    ensures
        ({
            let first = selection_end(Some((a, b)), len, true);
            let last = selection_end(Some((a, b)), len, false);
            &&& first <= last <= len
            &&& a <= b <= len ==> first == a && last == b
            &&& b <= a <= len ==> first == b && last == a
        }),
        selection_end(None, len, true) == len,
        selection_end(None, len, false) == len,
{
}

} // verus!
