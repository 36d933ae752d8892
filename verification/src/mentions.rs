//! Naming people in a message.
use vstd::prelude::*;
use vstd::string::StringExecFns;
use vstd::utf8::encode_utf8;
use crate::completion::{
    clipped, contains_complete_mention, keyed_all, last_trigger, matching_mentions, mention_from,
    mention_query, offered, query_at,
};
use crate::composer::{chosen, AcceptedCommand, CompletionAsk};
use crate::models::{
    copy_list, opt_view, Buffer, BufferView, CandidateView, MentionCandidate, Nick, NickView,
};
use crate::order::buffer_position;
use crate::seqs::{first_index, keep_items, lemma_filter_take, views};
use crate::state::{
    AppView, CompletionState, CompletionView, MentionCompletionState, MentionCompletionView,
    SelectedMention, SelectedMentionView, WeeChatApp,
};
use crate::text::{
    after_byte, before_byte, byte_len, bytes_in, chars_of, is_boundary, join2, join3,
    lemma_head_boundary, lemma_rfind_from, lowercase, rfind, rfind_from, same_text, split_bytes,
    starts_with, str_starts_with, text_between, texts, to_lowercase,
};

verus! {

/// Whom a message in a buffer can mention: the members that the server lists,
/// or else the nicks.
pub open spec fn mentionable(b: BufferView) -> Seq<CandidateView> {
    if b.mention_candidates.len() > 0 {
        b.mention_candidates
    } else {
        b.nicks.map_values(
            |n: NickView| CandidateView { display_name: n.name, user_id: n.name },
        )
    }
}

fn mentionable_of(b: &Buffer) -> (list: Vec<MentionCandidate>)
    ensures
        views(list@) == mentionable(b@),
{
    assert(b@.mention_candidates.len() == b.mention_candidates@.len());
    if b.mention_candidates.len() > 0 {
        return copy_list(&b.mention_candidates);
    }
    let mut list: Vec<MentionCandidate> = Vec::new();
    let mut i: usize = 0;
    while i < b.nicks.len()
        invariant
            i <= b.nicks@.len(),
            list@.len() == i,
            forall|j: int|
                0 <= j < i ==> (#[trigger] list@[j])@ == (CandidateView {
                    display_name: b.nicks@[j]@.name,
                    user_id: b.nicks@[j]@.name,
                }),
        decreases b.nicks@.len() - i,
    {
        list.push(
            MentionCandidate {
                display_name: b.nicks[i].name.clone(),
                user_id: b.nicks[i].name.clone(),
            },
        );
        i = i + 1;
    }
    assert(views(list@) =~= mentionable(b@));
    list
}

/// A mention as it stands in a message.
pub open spec fn mention_label(c: CandidateView) -> Seq<char> {
    if starts_with(c.display_name, "@"@) {
        c.display_name
    } else {
        "@"@ + c.display_name
    }
}

impl AppView {
    /// The first buffer that is on view.
    pub open spec fn viewed(self) -> Option<BufferView> {
        match self.selected_buffer_id {
            Some(id) => match first_index(self.buffers, |b: BufferView| b.id == id) {
                Some(i) => Some(self.buffers[i]),
                None => None,
            },
            None => None,
        }
    }

    /// The mentions that are offered at a cursor.
    pub open spec fn mentions_offered(self, cursor: int) -> Option<MentionCompletionView> {
        match (query_at(self.input_text, cursor), self.viewed()) {
            (Some((trigger, end, query)), Some(b)) => {
                let matches = offered(keyed_all(mentionable(b)), lowercase(query));
                let index = match self.mention_completion {
                    Some(state) => state.index,
                    None => 0,
                };
                if matches.len() == 0 {
                    None
                } else {
                    Some(
                        MentionCompletionView {
                            trigger_byte_idx: trigger as usize,
                            cursor_byte_idx: end as usize,
                            matches,
                            index: if index < matches.len() {
                                index
                            } else {
                                (matches.len() - 1) as usize
                            },
                        },
                    )
                }
            },
            _ => None,
        }
    }

    pub open spec fn mentions_refreshed(self, cursor: int) -> AppView {
        AppView { mention_completion: self.mentions_offered(cursor), ..self }
    }

    /// The mention that is accepted: the given one or the chosen one.
    pub open spec fn accepted_mention(self, index: Option<usize>) -> CandidateView {
        let state = self.mention_completion->0;
        state.matches[chosen(index, state.index, state.matches.len())]
    }

    /// The input up to the end of an accepted mention.
    pub open spec fn mention_head(self, index: Option<usize>) -> Seq<char> {
        before_byte(self.input_text, self.mention_completion->0.trigger_byte_idx as int)
            + mention_label(self.accepted_mention(index)) + " "@
    }

    /// The state after a mention was accepted.
    pub open spec fn mention_accepted(self, index: Option<usize>) -> AppView {
        let c = self.accepted_mention(index);
        let label = mention_label(c);
        AppView {
            input_text: self.mention_head(index) + after_byte(
                self.input_text,
                self.mention_completion->0.cursor_byte_idx as int,
            ),
            mention_completion: None,
            selected_mentions: self.selected_mentions.filter(
                |m: SelectedMentionView| m.user_id != c.user_id && m.label != label,
            ).push(SelectedMentionView { label, user_id: c.user_id }),
            ..self
        }
    }

    /// The state without the mentions that the input does not hold any more.
    pub open spec fn mentions_reconciled(self) -> AppView {
        AppView {
            selected_mentions: self.selected_mentions.filter(
                |m: SelectedMentionView| mention_from(self.input_text, m.label, 0),
            ),
            ..self
        }
    }
}

fn label_of(c: &MentionCandidate) -> (label: String)
    ensures
        label@ == mention_label(c@),
{
    if str_starts_with(c.display_name.as_str(), "@") {
        c.display_name.clone()
    } else {
        join2("@", c.display_name.as_str())
    }
}

impl WeeChatApp {
    pub(crate) fn viewed_position(&self) -> (at: Option<usize>)
        ensures
            match at {
                Some(i) => i < self.buffers@.len() && self@.viewed() == Some(
                    self.buffers@[i as int]@,
                ),
                None => self@.viewed() is None,
            },
    {
        match &self.selected_buffer_id {
            Some(id) => {
                let at = buffer_position(&self.buffers, id.as_str());
                proof {
                    if let Some(i) = at {
                        assert(self@.buffers[i as int] == self.buffers@[i as int]@);
                    }
                }
                at
            },
            None => None,
        }
    }

    fn mentions_offered_of(&self, cursor_char_idx: usize) -> (state: Option<MentionCompletionState>)
        ensures
            opt_view(state) == self@.mentions_offered(cursor_char_idx as int),
    {
        let (trigger, end, query) = match mention_query(self.input_text.as_str(), cursor_char_idx) {
            Some(found) => found,
            None => {
                return None;
            },
        };
        let i: usize = match self.viewed_position() {
            Some(i) => i,
            None => {
                return None;
            },
        };
        let candidates = mentionable_of(&self.buffers[i]);
        let matches = matching_mentions(&candidates, query.as_str());
        let n: usize = matches.len();
        assert(views(matches@).len() == n);
        if n == 0 {
            return None;
        }
        let index: usize = match &self.mention_completion {
            Some(state) => state.index,
            None => 0,
        };
        Some(
            MentionCompletionState {
                trigger_byte_idx: trigger,
                cursor_byte_idx: end,
                matches,
                index: if index < n {
                    index
                } else {
                    n - 1
                },
            },
        )
    }

    /// Offers the mentions that fit what is being typed at a cursor.
    pub fn refresh_mention_completion(&mut self, cursor_char_idx: usize)
        ensures
            final(self)@ == old(self)@.mentions_refreshed(cursor_char_idx as int),
            old(self).wf() ==> final(self).wf(),
    {
        let ghost before = self@;
        self.mention_completion = self.mentions_offered_of(cursor_char_idx);
        assert(self@.buffers == before.buffers);
    }

    fn put_mention(&mut self, text: String, label: String, user_id: String)
        ensures
            final(self)@ == (AppView {
                input_text: text@,
                mention_completion: None,
                selected_mentions: old(self)@.selected_mentions.filter(
                    |m: SelectedMentionView| m.user_id != user_id@ && m.label != label@,
                ).push(SelectedMentionView { label: label@, user_id: user_id@ }),
                ..old(self)@
            }),
            old(self).wf() ==> final(self).wf(),
    {
        let ghost before = self@;
        let l = label.as_str();
        let u = user_id.as_str();
        let keep = |m: &SelectedMention| -> (r: bool)
            ensures
                r == (m@.user_id != u@ && m@.label != l@),
            { !same_text(m.user_id.as_str(), u) && !same_text(m.label.as_str(), l) };
        let mut mentions: Vec<SelectedMention> = Vec::new();
        core::mem::swap(&mut mentions, &mut self.selected_mentions);
        let mut kept = keep_items(
            mentions,
            keep,
            Ghost(|m: SelectedMentionView| m.user_id != user_id@ && m.label != label@),
        );
        let ghost others = kept@;
        kept.push(SelectedMention { label, user_id });
        assert(views(kept@) =~= views(others).push(
            SelectedMentionView { label: label@, user_id: user_id@ },
        ));
        self.selected_mentions = kept;
        self.mention_completion = None;
        self.input_text = text;
        assert(self@.buffers == before.buffers);
    }

    /// Accepts a mention. The answer is where the cursor then stands.
    pub fn accept_mention(&mut self, index: Option<usize>) -> (cursor: Option<usize>)
        requires
            old(self)@.mention_completion is Some ==> ({
                let state = old(self)@.mention_completion->0;
                state.matches.len() > 0 && is_boundary(
                    old(self)@.input_text,
                    state.trigger_byte_idx as int,
                ) && is_boundary(old(self)@.input_text, state.cursor_byte_idx as int)
            }),
        ensures
            match cursor {
                Some(c) => old(self)@.mention_completion is Some && c == old(self)@.mention_head(
                    index,
                ).len() && final(self)@ == old(self)@.mention_accepted(index),
                None => old(self)@.mention_completion is None && final(self)@ == old(self)@,
            },
            old(self).wf() ==> final(self).wf(),
    {
        let (text, label, user_id, cursor) = match &self.mention_completion {
            Some(state) => {
                assert(views(state.matches@).len() == state.matches@.len());
                let n: usize = state.matches.len();
                let wanted: usize = match index {
                    Some(i) => i,
                    None => state.index,
                };
                let at: usize = if wanted < n {
                    wanted
                } else {
                    n - 1
                };
                assert(views(state.matches@)[at as int] == state.matches@[at as int]@);
                let label = label_of(&state.matches[at]);
                let user_id = state.matches[at].user_id.clone();
                let head = split_bytes(self.input_text.as_str(), state.trigger_byte_idx).0;
                let tail = split_bytes(self.input_text.as_str(), state.cursor_byte_idx).1;
                let mut text = join3(head.as_str(), label.as_str(), " ");
                assert(text@ == self@.mention_head(index));
                let cursor: usize = chars_of(text.as_str()).len();
                text.append(tail.as_str());
                (text, label, user_id, cursor)
            },
            None => {
                return None;
            },
        };
        self.put_mention(text, label, user_id);
        Some(cursor)
    }

    /// Forgets the mentions that the input does not hold any more.
    pub fn reconcile_selected_mentions(&mut self)
        ensures
            final(self)@ == old(self)@.mentions_reconciled(),
            old(self).wf() ==> final(self).wf(),
    {
        let ghost before = self@;
        let mut mentions: Vec<SelectedMention> = Vec::new();
        core::mem::swap(&mut mentions, &mut self.selected_mentions);
        let input = self.input_text.as_str();
        let keep = |m: &SelectedMention| -> (r: bool)
            ensures
                r == mention_from(input@, m@.label, 0),
            { contains_complete_mention(input, m.label.as_str()) };
        let kept = keep_items(
            mentions,
            keep,
            Ghost(|m: SelectedMentionView| mention_from(before.input_text, m.label, 0)),
        );
        self.selected_mentions = kept;
        assert(self@.buffers == before.buffers);
    }
}

/// After a mention was accepted, its user is mentioned exactly once, under the
/// label that stands in the input.
pub proof fn accepted_user_is_mentioned_once(state: AppView, index: Option<usize>)
    requires
        state.mention_completion is Some,
    ensures
        ({
            let after = state.mention_accepted(index).selected_mentions;
            let c = state.accepted_mention(index);
            &&& after.last() == (SelectedMentionView {
                label: mention_label(c),
                user_id: c.user_id,
            })
            &&& forall|i: int|
                0 <= i < after.len() - 1 ==> (#[trigger] after[i]).user_id != c.user_id
        }),
{
    let c = state.accepted_mention(index);
    let label = mention_label(c);
    let p = |m: SelectedMentionView| m.user_id != c.user_id && m.label != label;
    let kept = state.selected_mentions.filter(p);
    assert forall|i: int| 0 <= i < kept.len() implies (#[trigger] kept[i]).user_id != c.user_id by {
        state.selected_mentions.lemma_filter_pred(p, i);
    }
}

// ---------------------------------------------------------------------------
// Completing words
// ---------------------------------------------------------------------------

/// What follows a completed word: a colon behind a nick at the start of the
/// line, and otherwise a space.
pub open spec fn word_end(word: Seq<char>, start: int) -> Seq<char> {
    if !starts_with(word, ":"@) && start == 0 {
        ": "@
    } else {
        " "@
    }
}

/// Where the last word of the input begins, in characters.
pub open spec fn last_word_start(input: Seq<char>) -> int {
    match rfind_from(input, " "@, input.len() - 1) {
        Some(i) => i + 1,
        None => 0,
    }
}

/// The nicks that begin with a word, in either case.
pub open spec fn nicks_like(nicks: Seq<NickView>, word: Seq<char>) -> Seq<Seq<char>> {
    nicks.filter(|n: NickView| starts_with(lowercase(n.name), lowercase(word))).map_values(
        |n: NickView| n.name,
    )
}

impl AppView {
    /// The words that the last word of the input can become. None where there
    /// is nothing to look in.
    pub open spec fn word_matches(self, word: Seq<char>, emoji: Seq<Seq<char>>) -> Option<
        Seq<Seq<char>>,
    > {
        if starts_with(word, ":"@) && byte_len(word) >= 2 {
            Some(emoji)
        } else {
            match self.viewed() {
                Some(b) => Some(nicks_like(b.nicks, word)),
                None => None,
            }
        }
    }

    /// The state with the next match in place of a completed word.
    pub open spec fn next_word(self, state: CompletionView) -> AppView {
        let index = (state.index + 1) % state.matches.len() as int;
        let text = before_byte(self.input_text, state.word_start_idx as int) + state.matches[index]
            + word_end(state.original_word, state.word_start_idx as int);
        AppView {
            input_text: text,
            completion: Some(CompletionView { index: index as usize, ..state }),
            ..self
        }
    }

    /// The state with the first match in place of the last word.
    pub open spec fn first_match(self, matches: Seq<Seq<char>>) -> AppView {
        let start = last_word_start(self.input_text);
        let word = self.input_text.skip(start);
        let place = byte_len(self.input_text.take(start));
        AppView {
            input_text: self.input_text.take(start) + matches[0] + word_end(word, place as int),
            completion: Some(
                CompletionView {
                    original_word: word,
                    matches,
                    index: 0,
                    word_start_idx: place as usize,
                },
            ),
            ..self
        }
    }

    /// The state after the last word of the input was completed.
    pub open spec fn word_completed(self, emoji: Seq<Seq<char>>) -> AppView {
        match self.completion {
            Some(state) => if state.matches.len() == 0 {
                self
            } else {
                self.next_word(state)
            },
            None => {
                let word = self.input_text.skip(last_word_start(self.input_text));
                match self.word_matches(word, emoji) {
                    Some(matches) if word.len() > 0 && matches.len() > 0 => self.first_match(
                        matches,
                    ),
                    _ => self,
                }
            },
        }
    }

    /// Whether the last word of the input is completed.
    pub open spec fn completes_word(self, emoji: Seq<Seq<char>>) -> bool {
        match self.completion {
            Some(state) => state.matches.len() > 0,
            None => {
                let word = self.input_text.skip(last_word_start(self.input_text));
                match self.word_matches(word, emoji) {
                    Some(matches) => word.len() > 0 && matches.len() > 0,
                    None => false,
                }
            },
        }
    }
}

fn word_end_of(word: &str, start: usize) -> (end: &'static str)
    ensures
        end@ == word_end(word@, start as int),
{
    if !str_starts_with(word, ":") && start == 0 {
        ": "
    } else {
        " "
    }
}

fn nicks_like_of(nicks: &Vec<Nick>, word: &str) -> (names: Vec<String>)
    ensures
        texts(names@) == nicks_like(views(nicks@), word@),
{
    let lowered = to_lowercase(word);
    let ghost all = views(nicks@);
    let ghost p = |n: NickView| starts_with(lowercase(n.name), lowercase(word@));
    let ghost f = |n: NickView| n.name;
    let mut names: Vec<String> = Vec::new();
    let mut i: usize = 0;
    proof {
        reveal(Seq::filter);
        assert(texts(names@) =~= all.take(0).filter(p).map_values(f));
    }
    while i < nicks.len()
        invariant
            i <= nicks@.len(),
            all == views(nicks@),
            lowered@ == lowercase(word@),
            p == (|n: NickView| starts_with(lowercase(n.name), lowercase(word@))),
            f == (|n: NickView| n.name),
            texts(names@) == all.take(i as int).filter(p).map_values(f),
        decreases nicks@.len() - i,
    {
        let ghost before = names@;
        proof {
            lemma_filter_take(all, i as int, p);
            assert(all[i as int] == nicks@[i as int]@);
        }
        let name = to_lowercase(nicks[i].name.as_str());
        if str_starts_with(name.as_str(), lowered.as_str()) {
            names.push(nicks[i].name.clone());
            assert(texts(names@) =~= texts(before).push(all[i as int].name));
            assert(all.take(i as int).filter(p).push(all[i as int]).map_values(f) =~= all.take(
                i as int,
            ).filter(p).map_values(f).push(all[i as int].name));
        }
        i = i + 1;
    }
    assert(all.take(i as int) =~= all);
    names
}

impl WeeChatApp {
    fn word_matches_of(&self, word: &str, emoji: Vec<String>) -> (found: Option<Vec<String>>)
        ensures
            match found {
                Some(list) => self@.word_matches(word@, texts(emoji@)) == Some(texts(list@)),
                None => self@.word_matches(word@, texts(emoji@)) is None,
            },
    {
        if str_starts_with(word, ":") && bytes_in(word) >= 2 {
            return Some(emoji);
        }
        match self.viewed_position() {
            Some(i) => Some(nicks_like_of(&self.buffers[i].nicks, word)),
            None => None,
        }
    }

    fn set_completion(&mut self, text: String, state: CompletionState)
        ensures
            final(self)@ == (AppView {
                input_text: text@,
                completion: Some(state@),
                ..old(self)@
            }),
            old(self).wf() ==> final(self).wf(),
    {
        let ghost before = self@;
        self.input_text = text;
        self.completion = Some(state);
        assert(self@.buffers == before.buffers);
    }

    fn complete_next(&mut self, state: CompletionState) -> (cursor: usize)
        requires
            state@.matches.len() > 0,
            is_boundary(old(self)@.input_text, state@.word_start_idx as int),
        ensures
            final(self)@ == old(self)@.next_word(state@),
            cursor == final(self)@.input_text.len(),
            old(self).wf() ==> final(self).wf(),
    {
        assert(texts(state.matches@).len() == state.matches@.len());
        let n: usize = state.matches.len();
        let index: usize = ((state.index as u128 + 1) % n as u128) as usize;
        assert(texts(state.matches@)[index as int] == state.matches@[index as int]@);
        let head = split_bytes(self.input_text.as_str(), state.word_start_idx).0;
        let text = join3(
            head.as_str(),
            state.matches[index].as_str(),
            word_end_of(state.original_word.as_str(), state.word_start_idx),
        );
        let cursor: usize = chars_of(text.as_str()).len();
        let mut next = state;
        next.index = index;
        self.set_completion(text, next);
        cursor
    }

    fn complete_first(&mut self, emoji: Vec<String>) -> (cursor: Option<usize>)
        requires
            old(self)@.completion is None,
        ensures
            final(self)@ == old(self)@.word_completed(texts(emoji@)),
            match cursor {
                Some(c) => old(self)@.completes_word(texts(emoji@)) && c
                    == final(self)@.input_text.len(),
                None => !old(self)@.completes_word(texts(emoji@)),
            },
            old(self).wf() ==> final(self).wf(),
    {
        proof {
            reveal_strlit(" ");
        }
        let chars = chars_of(self.input_text.as_str());
        let space = chars_of(" ");
        let n: usize = chars.len();
        let start: usize = match rfind(chars.as_slice(), space.as_slice()) {
            Some(i) => i + 1,
            None => 0,
        };
        assert(start == last_word_start(self@.input_text));
        let word = text_between(chars.as_slice(), start, n);
        assert(word@ =~= self@.input_text.skip(start as int));
        if word.as_str().is_empty() {
            return None;
        }
        let list = match self.word_matches_of(word.as_str(), emoji) {
            Some(list) => list,
            None => {
                return None;
            },
        };
        assert(texts(list@).len() == list@.len());
        if list.len() == 0 {
            return None;
        }
        assert(texts(list@)[0] == list@[0]@);
        let head = text_between(chars.as_slice(), 0, start);
        assert(head@ =~= self@.input_text.take(start as int));
        let place: usize = bytes_in(head.as_str());
        let text = join3(
            head.as_str(),
            list[0].as_str(),
            word_end_of(word.as_str(), place),
        );
        let cursor: usize = chars_of(text.as_str()).len();
        self.set_completion(
            text,
            CompletionState { original_word: word, matches: list, index: 0, word_start_idx: place },
        );
        Some(cursor)
    }

    /// Completes the last word of the input, or goes on to the next match of a
    /// word that was completed. `emoji` holds what the word names where it
    /// begins with a colon. The answer is where the cursor then stands, where
    /// something was completed.
    pub fn complete_word(&mut self, emoji: Vec<String>) -> (cursor: Option<usize>)
        requires
            old(self)@.completion is Some && old(self)@.completion->0.matches.len() > 0
                ==> is_boundary(
                old(self)@.input_text,
                old(self)@.completion->0.word_start_idx as int,
            ),
        ensures
            final(self)@ == old(self)@.word_completed(texts(emoji@)),
            match cursor {
                Some(c) => old(self)@.completes_word(texts(emoji@)) && c
                    == final(self)@.input_text.len(),
                None => !old(self)@.completes_word(texts(emoji@)),
            },
            old(self).wf() ==> final(self).wf(),
    {
        let state = match &self.completion {
            Some(state) => Some(state.clone()),
            None => None,
        };
        match state {
            Some(state) => {
                assert(texts(state.matches@).len() == state.matches@.len());
                if state.matches.len() == 0 {
                    return None;
                }
                Some(self.complete_next(state))
            },
            None => self.complete_first(emoji),
        }
    }
}


/// What a completion came to.
#[derive(Debug)]
pub enum Completed {
    /// Nothing was completed.
    Nothing,
    /// The input changed, and the cursor stands at this character.
    Cursor(usize),
    /// The server is to be asked.
    Ask(CompletionAsk),
    /// A completion of a command was accepted.
    Command(AcceptedCommand),
}

impl AppView {
    /// The state after the completion key was pressed.
    pub open spec fn completion_performed(self, cursor_char: int, emoji: Seq<Seq<char>>) -> AppView {
        if starts_with(self.input_text, "/"@) {
            if self.command_completion is Some {
                self.command_completed(None)
            } else {
                self.completion_planned(cursor_char)
            }
        } else {
            self.word_completed(emoji)
        }
    }

    /// Whether what a completion came to is what the state calls for.
    pub open spec fn completes_to(
        self,
        cursor_char: int,
        emoji: Seq<Seq<char>>,
        done: Completed,
    ) -> bool {
        if starts_with(self.input_text, "/"@) {
            if self.command_completion is Some {
                match self.command_sequel(None) {
                    Some(accepted) => done is Command && done->Command_0@ == accepted,
                    None => done is Nothing,
                }
            } else {
                match self.completion_ask(cursor_char) {
                    Some(ask) => done is Ask && done->Ask_0@ == ask,
                    None => done is Nothing,
                }
            }
        } else if self.completes_word(emoji) {
            done is Cursor && done->Cursor_0 == self.word_completed(emoji).input_text.len()
        } else {
            done is Nothing
        }
    }
}

impl WeeChatApp {
    /// Completes what is being typed: a command with what the server offers,
    /// and otherwise the last word.
    pub fn perform_completion(&mut self, cursor_char_idx: usize, emoji: Vec<String>) -> (done:
        Completed)
        requires
            old(self)@.command_completion is Some ==> old(self)@.command_completion->0.matches.len()
                > 0,
            old(self)@.completion is Some && old(self)@.completion->0.matches.len() > 0
                && !starts_with(old(self)@.input_text, "/"@) ==> is_boundary(
                old(self)@.input_text,
                old(self)@.completion->0.word_start_idx as int,
            ),
        ensures
            final(self)@ == old(self)@.completion_performed(cursor_char_idx as int, texts(emoji@)),
            old(self)@.completes_to(cursor_char_idx as int, texts(emoji@), done),
            old(self).wf() ==> final(self).wf(),
    {
        if str_starts_with(self.input_text.as_str(), "/") {
            if self.command_completion.is_some() {
                match self.accept_command_completion(None) {
                    Some(accepted) => Completed::Command(accepted),
                    None => Completed::Nothing,
                }
            } else {
                match self.request_command_completion(cursor_char_idx) {
                    Some(ask) => Completed::Ask(ask),
                    None => Completed::Nothing,
                }
            }
        } else {
            match self.complete_word(emoji) {
                Some(cursor) => Completed::Cursor(cursor),
                None => Completed::Nothing,
            }
        }
    }
}

/// Mentions on offer can be accepted: there is one at least, and the places in
/// the input fall between two characters.
pub proof fn offered_mentions_can_be_accepted(state: AppView, cursor: int)
    requires
        byte_len(state.input_text) <= usize::MAX,
        0 <= cursor,
        state.mentions_offered(cursor) is Some,
    ensures
        ({
            let offer = state.mentions_offered(cursor)->0;
            &&& offer.matches.len() > 0
            &&& offer.index < offer.matches.len() || offer.matches.len() > usize::MAX
            &&& is_boundary(state.input_text, offer.trigger_byte_idx as int)
            &&& is_boundary(state.input_text, offer.cursor_byte_idx as int)
        }),
{
    let input = state.input_text;
    let end = clipped(input, cursor);
    lemma_last_trigger(input, end);
    let at = last_trigger(input, end)->0;
    lemma_head_boundary(input, at);
    lemma_head_boundary(input, end);
}

proof fn lemma_last_trigger(text: Seq<char>, end: int)
    requires
        0 <= end <= text.len(),
    ensures
        match last_trigger(text, end) {
            Some(at) => 0 <= at < end,
            None => true,
        },
    decreases end,
{
    if end > 0 {
        lemma_last_trigger(text, end - 1);
    }
}

/// A completed word can be completed again: its place falls between two
/// characters, and what stands before it stays.
pub proof fn completed_word_can_be_cycled(state: AppView, matches: Seq<Seq<char>>)
    requires
        byte_len(state.input_text) <= usize::MAX,
    ensures
        ({
            let after = state.first_match(matches);
            let place = after.completion->0.word_start_idx as int;
            &&& is_boundary(after.input_text, place)
            &&& before_byte(after.input_text, place) == state.input_text.take(
                last_word_start(state.input_text),
            )
        }),
{
    let input = state.input_text;
    let start = last_word_start(input);
    reveal_strlit(" ");
    lemma_rfind_from(input, " "@, input.len() - 1);
    let after = state.first_match(matches).input_text;
    lemma_head_boundary(input, start);
    assert(after.take(start) =~= input.take(start));
    lemma_head_boundary(after, start);
}

/// A word that was completed again can be completed once more: its place still
/// falls between two characters, and what stands before it stays.
pub proof fn cycled_word_can_be_cycled(state: AppView, completion: CompletionView)
    requires
        completion.matches.len() > 0,
        is_boundary(state.input_text, completion.word_start_idx as int),
    ensures
        ({
            let after = state.next_word(completion);
            let place = after.completion->0.word_start_idx as int;
            &&& place == completion.word_start_idx
            &&& is_boundary(after.input_text, place)
            &&& before_byte(after.input_text, place) == before_byte(state.input_text, place)
        }),
{
    let place = completion.word_start_idx as int;
    let bytes = encode_utf8(state.input_text);
    vstd::utf8::encode_utf8_valid_utf8(state.input_text);
    crate::text::lemma_boundary_range(bytes, place);
    vstd::utf8::valid_utf8_split(bytes, place);
    assert(bytes.take(place) =~= bytes.subrange(0, place));
    vstd::utf8::decode_utf8_encode_utf8(bytes.take(place));
    let head = before_byte(state.input_text, place);
    assert(byte_len(head) == place);
    let after = state.next_word(completion).input_text;
    assert(after.take(head.len() as int) =~= head);
    lemma_head_boundary(after, head.len() as int);
}

} // verus!
