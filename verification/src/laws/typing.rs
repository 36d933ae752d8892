//! Typing on: completions that are asked for, offered and stepped through.
use vstd::prelude::*;
use crate::completion::{keyed_all, mention_from, offered, query_at};
use crate::laws::given::{buffers_are_found_by_id, stands_at};
use crate::laws::writing::{is_owned, owners_are_found};
use crate::mentions::mentionable;
use crate::models::{BufferView, CandidateView};
use crate::seqs::{first_index, lemma_first_from};
use crate::state::{ActionView, AppView, CompletionRequestView, CompletionView};
use crate::text::{byte_len, find_from, lemma_find_from, lowercase, occurs_at, starts_with, trim};

verus! {

/// What is written in a thread goes into that thread, and its field is empty
/// then; without words nothing goes anywhere.
pub proof fn thread_words_go_into_the_thread(
    state: AppView,
    id: Seq<char>,
    k: int,
    i: int,
    raw_id: Seq<char>,
    words: Seq<char>,
)
    requires
        state.open_thread_buffer_id == Some(id),
        stands_at(state.buffers, id, k),
        state.buffers[k].is_thread(),
        is_owned(state.connections, id, i, raw_id),
        trim(state.thread_input_text) == words,
    ensures
        ({
            let after = state.thread_sent();
            let conn = state.connections[i].prefix;
            &&& words.len() > 0 ==> after.thread_input_text.len() == 0 && after.outbox
                == state.outbox.push(ActionView::SendMessage { conn, raw_id, text: words })
            &&& words.len() == 0 ==> after == state
            &&& after.input_text == state.input_text
            &&& after.selected_buffer_id == state.selected_buffer_id
        }),
{
    buffers_are_found_by_id(state.buffers, id, k);
    owners_are_found(state.connections, id, i, raw_id);
}

/// For a command that is being typed, the relay of its buffer is asked what it
/// may become: the whole text with the place of the cursor, under a new number.
pub proof fn typed_commands_are_asked_about(
    state: AppView,
    id: Seq<char>,
    cursor: int,
    i: int,
    raw_id: Seq<char>,
)
    requires
        state.selected_buffer_id == Some(id),
        is_owned(state.connections, id, i, raw_id),
        starts_with(state.input_text, "/"@),
        0 <= cursor <= state.input_text.len(),
        byte_len(state.input_text) <= usize::MAX,
        byte_len(state.input_text.take(cursor)) <= usize::MAX,
        state.command_completion_pending is None,
        state.command_completion_request_seq < u64::MAX,
    ensures
        ({
            let ask = state.completion_ask(cursor);
            let after = state.completion_planned(cursor);
            &&& ask is Some
            &&& ask->0.conn == state.connections[i].prefix
            &&& ask->0.raw_id == raw_id
            &&& ask->0.request.input == state.input_text
            &&& ask->0.request.buffer_id == id
            &&& ask->0.request.cursor_byte_idx == byte_len(state.input_text.take(cursor))
            &&& ask->0.request.sequence == state.command_completion_request_seq + 1
            &&& after.command_completion_request_seq == ask->0.request.sequence
            &&& after.command_completion is None
            &&& after.mention_completion is None
            &&& after.input_text == state.input_text
        }),
{
    owners_are_found(state.connections, id, i, raw_id);
}

/// Nothing is asked about what is no command, and no question is asked twice.
pub proof fn needless_questions_are_not_asked(state: AppView, id: Seq<char>, cursor: int)
    ensures
        !starts_with(state.input_text, "/"@) ==> state.completion_ask(cursor) is None
            && state.completion_planned(cursor).command_completion is None
            && state.completion_planned(cursor).command_completion_pending is None,
        state.selected_buffer_id is None ==> state.completion_ask(cursor) is None,
        state.selected_buffer_id == Some(id) && 0 <= cursor <= state.input_text.len()
            && state.command_completion_pending is Some
            && state.command_completion_pending->0.buffer_id == id
            && state.command_completion_pending->0.input == state.input_text
            && state.command_completion_pending->0.cursor_byte_idx == byte_len(
            state.input_text.take(cursor),
        ) ==> state.completion_ask(cursor) is None,
{
}

/// A question that was sent is waited for; one that was not is forgotten.
pub proof fn sent_questions_are_waited_for(state: AppView, request: CompletionRequestView)
    ensures
        state.completion_asked(request, true).command_completion_pending == Some(request),
        state.completion_asked(request, false).command_completion_pending is None,
        state.completion_asked(request, true).input_text == state.input_text,
{
}

/// A step leads to the next proposal, one back to the one before, and from
/// either end to the other; the proposals stay.
pub proof fn steps_lead_through_the_proposals(state: AppView, n: int)
    requires
        state.command_completion is Some,
        state.command_completion->0.matches.len() == n,
        state.command_completion->0.index < n,
        n <= usize::MAX,
    ensures
        ({
            let before = state.command_completion->0;
            let next = state.command_stepped(1).command_completion;
            let prior = state.command_stepped(-1).command_completion;
            &&& next is Some && next->0.matches == before.matches
            &&& prior is Some && prior->0.matches == before.matches
            &&& next->0.index == (if before.index + 1 < n {
                before.index + 1
            } else {
                0
            })
            &&& prior->0.index == (if before.index > 0 {
                before.index - 1
            } else {
                n - 1
            })
        }),
{
    lemma_steps(state.command_completion->0.index as int, n);
}

/// The same holds of the people who may be mentioned.
pub proof fn steps_lead_through_the_people(state: AppView, n: int)
    requires
        state.mention_completion is Some,
        state.mention_completion->0.matches.len() == n,
        state.mention_completion->0.index < n,
        n <= usize::MAX,
    ensures
        ({
            let before = state.mention_completion->0;
            let next = state.mention_stepped(1).mention_completion;
            let prior = state.mention_stepped(-1).mention_completion;
            &&& next is Some && next->0.matches == before.matches
            &&& prior is Some && prior->0.matches == before.matches
            &&& next->0.index == (if before.index + 1 < n {
                before.index + 1
            } else {
                0
            })
            &&& prior->0.index == (if before.index > 0 {
                before.index - 1
            } else {
                n - 1
            })
        }),
{
    lemma_steps(state.mention_completion->0.index as int, n);
}

proof fn lemma_steps(k: int, n: int)
    requires
        0 <= k < n,
    ensures
        (k + 1) % n == (if k + 1 < n {
            k + 1
        } else {
            0
        }),
        (k + (-1)) % n == (if k > 0 {
            k - 1
        } else {
            n - 1
        }),
{
    let next = if k + 1 < n {
        k + 1
    } else {
        0
    };
    let prior = if k > 0 {
        k - 1
    } else {
        n - 1
    };
    assert((k + 1) % n == next) by (nonlinear_arith)
        requires
            0 <= k < n,
            next == (if k + 1 < n {
                k + 1
            } else {
                0int
            }),
    ;
    assert((k + (-1)) % n == prior) by (nonlinear_arith)
        requires
            0 <= k < n,
            prior == (if k > 0 {
                k - 1
            } else {
                n - 1
            }),
    ;
}

/// A further key puts the next word in the place of the last, round and round.
pub proof fn words_are_gone_through(state: AppView, found: CompletionView)
    requires
        found.matches.len() > 0,
        found.index < found.matches.len(),
        found.matches.len() <= usize::MAX,
        found.word_start_idx == 0,
        !starts_with(found.original_word, ":"@),
        state.completion == Some(found),
    ensures
        ({
            let next = if found.index + 1 < found.matches.len() {
                found.index + 1
            } else {
                0int
            };
            let after = state.word_completed(Seq::empty());
            &&& after.input_text == found.matches[next] + ": "@
            &&& after.completion is Some && after.completion->0.index == next
            &&& after.completion->0.matches == found.matches
            &&& after.completion->0.original_word == found.original_word
        }),
{
    lemma_steps(found.index as int, found.matches.len() as int);
    crate::text::lemma_head_boundary(state.input_text, 0);
    assert(state.input_text.take(0) =~= Seq::empty());
    assert(byte_len(Seq::<char>::empty()) == 0);
    assert(crate::text::before_byte(state.input_text, 0) =~= Seq::empty());
    let next = (found.index + 1) % found.matches.len() as int;
    assert(Seq::<char>::empty() + found.matches[next] =~= found.matches[next]);
}

/// Without other candidates, everybody in the room can be mentioned by nick.
pub proof fn everybody_can_be_mentioned(b: BufferView, i: int)
    ensures
        b.mention_candidates.len() > 0 ==> mentionable(b) == b.mention_candidates,
        b.mention_candidates.len() == 0 ==> mentionable(b).len() == b.nicks.len(),
        b.mention_candidates.len() == 0 && 0 <= i < b.nicks.len()
            ==> mentionable(b)[i].display_name == b.nicks[i].name && mentionable(b)[i].user_id
            == b.nicks[i].name,
{
}

/// The people on offer are those of the buffer on view who match what stands
/// behind the sign; without a sign nobody is on offer.
pub proof fn people_on_offer_are_in_the_room(state: AppView, cursor: int, id: Seq<char>, k: int)
    requires
        state.selected_buffer_id == Some(id),
        stands_at(state.buffers, id, k),
    ensures
        query_at(state.input_text, cursor) is None ==> state.mentions_offered(cursor) is None,
        state.mentions_offered(cursor) is Some ==> query_at(state.input_text, cursor) is Some && ({
            let (trigger, end, query) = query_at(state.input_text, cursor)->0;
            state.mentions_offered(cursor)->0.matches == offered(
                keyed_all(mentionable(state.buffers[k])),
                lowercase(query),
            ) && state.mentions_offered(cursor)->0.trigger_byte_idx == trigger as usize
                && state.mentions_offered(cursor)->0.cursor_byte_idx == end as usize
                && state.mentions_offered(cursor)->0.index < state.mentions_offered(
                cursor,
            )->0.matches.len()
        }),
        state.mentions_refreshed(cursor).mention_completion == state.mentions_offered(cursor),
{
    buffers_are_found_by_id(state.buffers, id, k);
    crate::completion::few_candidates_are_offered(
        keyed_all(mentionable(state.buffers[k])),
        lowercase(
            match query_at(state.input_text, cursor) {
                Some((_, _, query)) => query,
                None => Seq::empty(),
            },
        ),
    );
}

/// People are sought by name and by id, whatever the case.
pub proof fn people_are_sought_by_name_and_id(candidates: Seq<CandidateView>, i: int)
    requires
        0 <= i < candidates.len(),
    ensures
        keyed_all(candidates).len() == candidates.len(),
        keyed_all(candidates)[i].candidate == candidates[i],
        keyed_all(candidates)[i].name == lowercase(candidates[i].display_name),
        keyed_all(candidates)[i].id == lowercase(candidates[i].user_id),
{
}

/// A text that is nothing but a label mentions; one without the label does not.
pub proof fn whole_labels_mention(text: Seq<char>, label: Seq<char>)
    requires
        label.len() > 0,
    ensures
        text == label ==> mention_from(text, label, 0),
        !crate::text::contains(text, label) ==> !mention_from(text, label, 0),
{
    lemma_find_from(text, label, 0);
    if text == label {
        assert(text.subrange(0, label.len() as int) =~= label);
        assert(occurs_at(text, label, 0));
        assert(find_from(text, label, 0) == Some(0int));
    }
}

/// One's own nick is a name one is called by; with no nick there is none.
pub proof fn people_are_called_by_their_nick(b: BufferView, i: int)
    ensures
        b.own_nick.len() > 0 ==> b.own_aliases().contains(b.own_nick),
        b.own_nick.len() == 0 ==> b.own_aliases().len() == 0,
        b.plugin != "matrix"@ && b.own_nick.len() > 0 ==> b.own_aliases() == seq![b.own_nick],
        b.plugin == "matrix"@ && b.own_nick.len() > 0 && 0 <= i < b.mention_candidates.len()
            && b.mention_candidates[i].display_name == b.own_nick && (forall|j: int|
            0 <= j < i ==> (#[trigger] b.mention_candidates[j]).display_name != b.own_nick)
            ==> b.own_aliases().contains(b.mention_candidates[i].user_id),
{
    if b.own_nick.len() > 0 {
        assert(b.own_aliases()[0] == b.own_nick);
        let p = |c: CandidateView| c.display_name == b.own_nick;
        lemma_first_from(b.mention_candidates, p, 0);
        if b.plugin == "matrix"@ && 0 <= i < b.mention_candidates.len()
            && b.mention_candidates[i].display_name == b.own_nick && forall|j: int|
            0 <= j < i ==> (#[trigger] b.mention_candidates[j]).display_name != b.own_nick {
            assert(p(b.mention_candidates[i]));
            let k = first_index(b.mention_candidates, p)->0;
            if k < i {
                assert(b.mention_candidates[k].display_name != b.own_nick);
            }
            let n = 1 + b.first_name_alias().len() as int;
            assert(b.own_aliases()[n] == b.member_aliases()[0]);
        }
    }
}

} // verus!
