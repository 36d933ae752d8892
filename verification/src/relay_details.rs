//! What the relay tells of one buffer, of its nicks, and of completions.
use vstd::prelude::*;
use crate::json::{
    get, get_bool_or, get_text_or, json_object, member, member_bool_or, member_text_or, Json,
    JsonMember,
};
use crate::lines::{body_len, body_of, object_at};
use crate::models::{copy_list, opt_view, Buffer, BufferView, Nick, NickView, WeeChatResponse};
use crate::relay_lines::{full_id, full_id_of};
use crate::seqs::{first_index, keep_items, position_from, sorted_by, stable_sort, views};
use crate::state::{
    lemma_touched, AppView, CommandCompletionRequest, CommandCompletionState, CommandCompletionView,
    CompletionRequestView, RelayEntry, WeeChatApp,
};
use crate::tags::{
    array_member, get_local, local_text, metadata, nicks_in, plugin_in, room_id_in, safe_profiles,
    text_items, text_or, texts_among, thread_root_in,
};
use crate::text::{
    join2, lowercase, opt_is, opt_text, same_text, starts_with, str_le, str_starts_with,
    str_strip_prefix, strip_prefix, text_le, texts, to_lowercase,
};

verus! {

// ---------------------------------------------------------------------------
// One buffer
// ---------------------------------------------------------------------------

/// A buffer after the relay described it anew.
pub open spec fn with_info(
    b: BufferView,
    prefix: Seq<char>,
    obj: Seq<JsonMember>,
    entry: RelayEntry,
) -> BufferView {
    let raw_name = text_or(strip_prefix(b.full_name, prefix + "/"@), b.full_name);
    let plugin = if plugin_in(obj).len() > 0 {
        plugin_in(obj)
    } else {
        b.plugin
    };
    let meta = metadata(obj, b.topic, b.modes, raw_name, plugin);
    BufferView {
        plugin,
        topic: meta.topic,
        modes: meta.modes,
        kind: meta.kind,
        server: meta.server,
        own_nick: text_or(local_text(obj, "nick"@), b.own_nick),
        matrix_room_id: room_id_in(obj),
        matrix_thread_root: thread_root_in(obj),
        mention_candidates: match entry.mentions {
            Some(list) => views(list@),
            None => b.mention_candidates,
        },
        matrix_member_profiles: match entry.members {
            Some(list) => safe_profiles(views(list@)),
            None => b.matrix_member_profiles,
        },
        ..b
    }
}

fn apply_info(b: &mut Buffer, conn_prefix: &str, obj: &Vec<JsonMember>, entry: &RelayEntry)
    ensures
        final(b)@ == with_info(old(b)@, conn_prefix@, obj@, *entry),
{
    let head = join2(conn_prefix, "/");
    let raw_name = match str_strip_prefix(b.full_name.as_str(), head.as_str()) {
        Some(name) => name,
        None => b.full_name.clone(),
    };
    let refreshed = WeeChatApp::extract_buffer_plugin(obj);
    if !refreshed.as_str().is_empty() {
        b.plugin = refreshed;
    }
    let meta = WeeChatApp::extract_metadata(
        obj,
        b.topic.clone(),
        b.modes.clone(),
        raw_name.as_str(),
        b.plugin.as_str(),
    );
    b.topic = meta.topic;
    b.modes = meta.modes;
    b.kind = meta.kind;
    b.server = meta.server;
    match get_local(obj, "nick") {
        Some(nick) => {
            b.own_nick = nick.to_owned();
        },
        None => {},
    }
    let ids = WeeChatApp::extract_matrix_buffer_metadata(obj);
    b.matrix_room_id = ids.0;
    b.matrix_thread_root = ids.1;
    match &entry.mentions {
        Some(list) => {
            b.mention_candidates = copy_list(list);
        },
        None => {},
    }
    match &entry.members {
        Some(list) => {
            b.matrix_member_profiles = WeeChatApp::extract_matrix_member_profiles(copy_list(list));
        },
        None => {},
    }
}

impl AppView {
    /// The state after one entry that describes a buffer.
    pub open spec fn info_entry(self, prefix: Seq<char>, id: Seq<char>, value: Json, entry: RelayEntry) -> AppView {
        match json_object(value) {
            Some(obj) => self.changing(id, |b: BufferView| with_info(b, prefix, obj, entry)),
            None => self,
        }
    }

    /// The state after the first `n` entries that describe a buffer.
    pub open spec fn info_entries(
        self,
        prefix: Seq<char>,
        id: Seq<char>,
        body: Seq<Json>,
        entries: Seq<RelayEntry>,
        n: nat,
    ) -> AppView
        decreases n,
    {
        if n == 0 || n > body.len() || n > entries.len() {
            self
        } else {
            self.info_entries(prefix, id, body, entries, (n - 1) as nat).info_entry(
                prefix,
                id,
                body[n - 1],
                entries[n - 1],
            )
        }
    }
}

impl WeeChatApp {
    fn handle_info_entry(
        &mut self,
        conn_prefix: &str,
        id: &str,
        resp: &WeeChatResponse,
        i: usize,
        entry: &RelayEntry,
    )
        requires
            old(self).wf(),
            i < body_of(*resp).len(),
        ensures
            final(self).wf(),
            final(self)@ == old(self)@.info_entry(
                conn_prefix@,
                id@,
                body_of(*resp)[i as int],
                *entry,
            ),
    {
        let obj = match object_at(resp, i) {
            Some(obj) => obj,
            None => {
                return ;
            },
        };
        match self.buffer_idx_of(id) {
            Some(k) => {
                let ghost before = self.buffers@;
                assert(self@.buffers[k as int] == before[k as int]@);
                apply_info(&mut self.buffers[k], conn_prefix, obj, entry);
                proof {
                    lemma_touched(before, self.buffers@, k as int);
                }
            },
            None => {},
        }
    }

    /// Takes in the description of a buffer.
    pub fn handle_buffer_info(
        &mut self,
        conn_prefix: &str,
        raw_buffer_id: &str,
        resp: &WeeChatResponse,
        entries: &Vec<RelayEntry>,
    )
        requires
            old(self).wf(),
            entries@.len() == body_of(*resp).len(),
        ensures
            final(self).wf(),
            final(self)@ == old(self)@.info_entries(
                conn_prefix@,
                full_id(conn_prefix@, raw_buffer_id@),
                body_of(*resp),
                entries@,
                body_of(*resp).len(),
            ),
    {
        let id = full_id_of(conn_prefix, raw_buffer_id);
        let n: usize = body_len(resp);
        let mut i: usize = 0;
        while i < n
            invariant
                i <= n,
                n == body_of(*resp).len(),
                entries@.len() == n,
                id@ == full_id(conn_prefix@, raw_buffer_id@),
                self.wf(),
                self@ == old(self)@.info_entries(
                    conn_prefix@,
                    id@,
                    body_of(*resp),
                    entries@,
                    i as nat,
                ),
            decreases n - i,
        {
            self.handle_info_entry(conn_prefix, id.as_str(), resp, i, &entries[i]);
            i = i + 1;
        }
    }
}

// ---------------------------------------------------------------------------
// Nicks
// ---------------------------------------------------------------------------

/// A buffer with other nicks.
pub open spec fn with_nicks(b: BufferView, nicks: Seq<NickView>) -> BufferView {
    BufferView { nicks, ..b }
}

/// By name, in either case.
pub open spec fn nick_name_le(a: NickView, b: NickView) -> bool {
    text_le(lowercase(a.name), lowercase(b.name))
}

pub open spec fn nicks_by_name(nicks: Seq<NickView>) -> Seq<NickView> {
    sorted_by(nicks, |a: NickView, b: NickView| nick_name_le(a, b))
}

pub open spec fn has_nick(nicks: Seq<NickView>, name: Seq<char>) -> bool {
    first_index(nicks, |n: NickView| n.name == name) is Some
}

/// The nicks with one more, in order, unless its name is there.
pub open spec fn nick_joined(nicks: Seq<NickView>, nick: NickView) -> Seq<NickView> {
    if has_nick(nicks, nick.name) {
        nicks
    } else {
        nicks_by_name(nicks.push(nick))
    }
}

/// The nicks with one replaced, or added in order where its name is not there.
pub open spec fn nick_changed(nicks: Seq<NickView>, nick: NickView) -> Seq<NickView> {
    match first_index(nicks, |n: NickView| n.name == nick.name) {
        Some(i) => nicks.update(i, nick),
        None => nicks_by_name(nicks.push(nick)),
    }
}

/// The nicks without those of a name.
pub open spec fn nick_left(nicks: Seq<NickView>, name: Seq<char>) -> Seq<NickView> {
    nicks.filter(|n: NickView| n.name != name)
}

pub fn nick_position(nicks: &Vec<Nick>, name: &str) -> (at: Option<usize>)
    ensures
        match at {
            Some(i) => i < nicks@.len() && first_index(
                views(nicks@),
                |n: NickView| n.name == name@,
            ) == Some(i as int),
            None => first_index(views(nicks@), |n: NickView| n.name == name@) is None,
        },
{
    let found = |n: &Nick| -> (r: bool)
        ensures
            r == (n@.name == name@),
        { same_text(n.name.as_str(), name) };
    position_from(nicks.as_slice(), 0, found, Ghost(|n: NickView| n.name == name@))
}

fn sort_nicks_by_name(nicks: Vec<Nick>) -> (sorted: Vec<Nick>)
    ensures
        views(sorted@) == nicks_by_name(views(nicks@)),
{
    let compare = |a: &Nick, b: &Nick| -> (r: bool)
        ensures
            r == nick_name_le(a@, b@),
        {
            let x = to_lowercase(a.name.as_str());
            let y = to_lowercase(b.name.as_str());
            str_le(x.as_str(), y.as_str())
        };
    stable_sort(nicks, compare, Ghost(|a: NickView, b: NickView| nick_name_le(a, b)))
}

/// Adds a nick in order, unless its name is there.
pub fn join_nick(b: &mut Buffer, nick: Nick)
    ensures
        final(b)@ == with_nicks(old(b)@, nick_joined(old(b)@.nicks, nick@)),
{
    if nick_position(&b.nicks, nick.name.as_str()).is_some() {
        return ;
    }
    let mut nicks: Vec<Nick> = Vec::new();
    core::mem::swap(&mut nicks, &mut b.nicks);
    let ghost before = nicks@;
    nicks.push(nick);
    assert(views(nicks@) =~= views(before).push(nick@));
    b.nicks = sort_nicks_by_name(nicks);
}

/// Replaces a nick, or adds it in order where its name is not there.
pub fn change_nick(b: &mut Buffer, nick: Nick)
    ensures
        final(b)@ == with_nicks(old(b)@, nick_changed(old(b)@.nicks, nick@)),
{
    match nick_position(&b.nicks, nick.name.as_str()) {
        Some(i) => {
            let ghost before = b.nicks@;
            b.nicks[i] = nick;
            assert(views(b.nicks@) =~= views(before).update(i as int, nick@));
        },
        None => {
            let mut nicks: Vec<Nick> = Vec::new();
            core::mem::swap(&mut nicks, &mut b.nicks);
            let ghost before = nicks@;
            nicks.push(nick);
            assert(views(nicks@) =~= views(before).push(nick@));
            b.nicks = sort_nicks_by_name(nicks);
        },
    }
}

/// Removes the nicks of a name.
pub fn remove_nick(b: &mut Buffer, name: &str)
    ensures
        final(b)@ == with_nicks(old(b)@, nick_left(old(b)@.nicks, name@)),
{
    let mut nicks: Vec<Nick> = Vec::new();
    core::mem::swap(&mut nicks, &mut b.nicks);
    let keep = |n: &Nick| -> (r: bool)
        ensures
            r == (n@.name != name@),
        { !same_text(n.name.as_str(), name) };
    b.nicks = keep_items(nicks, keep, Ghost(|n: NickView| n.name != name@));
}

pub fn set_nicks(b: &mut Buffer, nicks: Vec<Nick>)
    ensures
        final(b)@ == with_nicks(old(b)@, views(nicks@)),
{
    b.nicks = nicks;
}

impl AppView {
    /// The state after the nicks of a buffer came.
    pub open spec fn nicks_listed(self, id: Seq<char>, body: Option<Json>) -> AppView {
        match body {
            Some(value) => self.changing(id, |b: BufferView| with_nicks(b, nicks_in(value))),
            None => self,
        }
    }
}

impl WeeChatApp {
    /// Takes in the nicks of a buffer.
    pub fn handle_nick_list(&mut self, conn_prefix: &str, raw_buffer_id: &str, resp: &WeeChatResponse)
        requires
            old(self).wf(),
        ensures
            final(self).wf(),
            final(self)@ == old(self)@.nicks_listed(
                full_id(conn_prefix@, raw_buffer_id@),
                resp.body,
            ),
    {
        let id = full_id_of(conn_prefix, raw_buffer_id);
        match &resp.body {
            Some(value) => {
                let mut nicks: Vec<Nick> = Vec::new();
                WeeChatApp::extract_nicks(value, &mut nicks);
                assert(views(nicks@) =~= nicks_in(*value));
                match self.buffer_idx_of(id.as_str()) {
                    Some(k) => {
                        let ghost before = self.buffers@;
                        assert(self@.buffers[k as int] == before[k as int]@);
                        set_nicks(&mut self.buffers[k], nicks);
                        proof {
                            lemma_touched(before, self.buffers@, k as int);
                        }
                    },
                    None => {},
                }
            },
            None => {},
        }
    }
}

// ---------------------------------------------------------------------------
// Completions
// ---------------------------------------------------------------------------

/// An unsigned number that fits into a machine word.
pub open spec fn json_usize(value: Json) -> Option<usize> {
    match value {
        Json::Number(n) => match n.unsigned {
            Some(u) if u <= usize::MAX => Some(u as usize),
            _ => None,
        },
        _ => None,
    }
}

/// The completion that an answer offers.
pub open spec fn completion_in(obj: Seq<JsonMember>, request: CompletionRequestView) -> Option<
    CommandCompletionView,
> {
    let place = match member(obj, "position_replace"@) {
        Some(value) => json_usize(value),
        None => None,
    };
    let matches = text_items(array_member(obj, "list"@));
    if place is None || matches.len() == 0 {
        None
    } else {
        Some(
            CommandCompletionView {
                context: member_text_or(obj, "context"@, "null"@),
                source_text: request.input,
                cursor_byte_idx: request.cursor_byte_idx,
                base_word: member_text_or(obj, "base_word"@, Seq::empty()),
                position_replace: place->0,
                add_space: member_bool_or(obj, "add_space"@, false),
                matches,
                index: 0,
            },
        )
    }
}

impl AppView {
    /// Whether an answer still fits what the user sees.
    pub open spec fn completion_fits(
        self,
        prefix: Seq<char>,
        request: CompletionRequestView,
        resp: WeeChatResponse,
    ) -> bool {
        starts_with(request.buffer_id, prefix + "/"@) && self.selected_buffer_id == Some(
            request.buffer_id,
        ) && self.input_text == request.input && resp.code == Some(200i64) && opt_text(
            resp.body_type,
        ) == Some("completion"@)
    }

    /// The completion that comes of an answer.
    pub open spec fn completion_from(
        self,
        prefix: Seq<char>,
        request: CompletionRequestView,
        resp: WeeChatResponse,
    ) -> Option<CommandCompletionView> {
        if !self.completion_fits(prefix, request, resp) {
            None
        } else {
            match resp.body {
                Some(value) => match json_object(value) {
                    Some(obj) => completion_in(obj, request),
                    None => None,
                },
                None => None,
            }
        }
    }

    /// The state after an answer to a request for completions. An answer to
    /// another request changes nothing.
    pub open spec fn completion_answered(self, prefix: Seq<char>, sequence: u64, resp: WeeChatResponse) -> AppView {
        match self.command_completion_pending {
            Some(request) if request.sequence == sequence => AppView {
                command_completion_pending: None,
                command_completion: self.completion_from(prefix, request, resp),
                ..self
            },
            _ => self,
        }
    }
}

fn usize_of(value: &Json) -> (n: Option<usize>)
    ensures
        n == json_usize(*value),
{
    match value {
        Json::Number(n) => match n.unsigned {
            Some(u) => if u <= usize::MAX as u64 {
                Some(u as usize)
            } else {
                None
            },
            None => None,
        },
        _ => None,
    }
}

fn completion_of(obj: &Vec<JsonMember>, request: CommandCompletionRequest) -> (completion: Option<
    CommandCompletionState,
>)
    ensures
        opt_view(completion) == completion_in(obj@, request@),
{
    proof {
        reveal_strlit("");
        assert(""@ =~= Seq::<char>::empty());
    }
    let place = match get(obj, "position_replace") {
        Some(value) => usize_of(value),
        None => None,
    };
    let matches = match get(obj, "list") {
        Some(Json::Array(items)) => texts_among(items),
        _ => {
            let none: Vec<String> = Vec::new();
            proof {
                reveal(Seq::filter_map);
                assert(texts(none@) =~= text_items(Seq::<Json>::empty()));
            }
            none
        },
    };
    assert(texts(matches@) == text_items(array_member(obj@, "list"@)));
    assert(texts(matches@).len() == matches@.len());
    match place {
        Some(position_replace) => {
            if matches.len() == 0 {
                return None;
            }
            Some(
                CommandCompletionState {
                    context: get_text_or(obj, "context", "null"),
                    source_text: request.input,
                    cursor_byte_idx: request.cursor_byte_idx,
                    base_word: get_text_or(obj, "base_word", ""),
                    position_replace,
                    add_space: get_bool_or(obj, "add_space", false),
                    matches,
                    index: 0,
                },
            )
        },
        None => None,
    }
}

impl WeeChatApp {
    fn completion_from_answer(
        &self,
        conn_prefix: &str,
        request: CommandCompletionRequest,
        resp: &WeeChatResponse,
    ) -> (completion: Option<CommandCompletionState>)
        ensures
            opt_view(completion) == self@.completion_from(conn_prefix@, request@, *resp),
    {
        let head = join2(conn_prefix, "/");
        if !str_starts_with(request.buffer_id.as_str(), head.as_str()) || !opt_is(
            &self.selected_buffer_id,
            request.buffer_id.as_str(),
        ) || !same_text(self.input_text.as_str(), request.input.as_str()) {
            return None;
        }
        let accepted = match resp.code {
            Some(code) => code == 200,
            None => false,
        };
        if !accepted || !opt_is(&resp.body_type, "completion") {
            return None;
        }
        match &resp.body {
            Some(value) => match value.as_object() {
                Some(obj) => completion_of(obj, request),
                None => None,
            },
            None => None,
        }
    }

    /// Takes in an answer to a request for completions.
    pub fn handle_command_completion(&mut self, conn_prefix: &str, sequence: u64, resp: &WeeChatResponse)
        ensures
            final(self)@ == old(self)@.completion_answered(conn_prefix@, sequence, *resp),
            old(self).wf() ==> final(self).wf(),
    {
        let request = match &self.command_completion_pending {
            Some(request) => {
                if request.sequence != sequence {
                    return ;
                }
                request.clone()
            },
            None => {
                return ;
            },
        };
        let completion = self.completion_from_answer(conn_prefix, request, resp);
        self.command_completion_pending = None;
        self.command_completion = completion;
    }
}

/// A completion is offered only for the text that it was asked for, in the
/// buffer that it was asked for.
pub proof fn stale_completion_is_dropped(
    state: AppView,
    prefix: Seq<char>,
    sequence: u64,
    resp: WeeChatResponse,
)
    requires
        state.command_completion_pending is Some,
        state.command_completion_pending->0.sequence == sequence,
        state.input_text != state.command_completion_pending->0.input
            || state.selected_buffer_id != Some(state.command_completion_pending->0.buffer_id),
    ensures
        state.completion_answered(prefix, sequence, resp).command_completion is None,
{
}

/// A list of completions on offer is never empty.
pub proof fn completions_on_offer_are_not_empty(
    state: AppView,
    prefix: Seq<char>,
    sequence: u64,
    resp: WeeChatResponse,
)
    requires
        state.command_completion is Some ==> state.command_completion->0.matches.len() > 0,
    ensures
        ({
            let after = state.completion_answered(prefix, sequence, resp).command_completion;
            after is Some ==> after->0.matches.len() > 0
        }),
{
}

} // verus!
