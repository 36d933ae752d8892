//! What the user types, and what becomes of it.
use vstd::prelude::*;
use vstd::string::{StringExecFns, StringSliceAdditionalSpecFns};
use vstd::utf8::encode_utf8;
use std::collections::VecDeque;
use crate::completion::{
    apply_native_completion, byte_of_char, char_to_byte, completed, matrix_reply_command,
};
use crate::encoding::{base64url, encode_base64url, json_literal, json_string};
use crate::models::opt_view;
use crate::seqs::views;
use crate::state::{
    buffer_of, Action, ActionView, AppView, CommandCompletionRequest, CommandCompletionView,
    CompletionRequestView, MentionCompletionView, SelectedMention, SelectedMentionView, WeeChatApp,
};
use crate::text::{
    clone_opt, first_word, join2, join3, join_texts, joined_by, opt_is, opt_text, same_text,
    starts_with, str_first_word, str_starts_with, str_strip_prefix, str_trim, strip_prefix, texts,
    trim,
};

verus! {

/// How many sent messages are remembered.
pub const MAX_HISTORY: usize = 100;

// ---------------------------------------------------------------------------
// Commands
// ---------------------------------------------------------------------------

/// What a command of the user is about.
#[derive(Debug)]
pub enum CommandKind {
    /// Another buffer is to be shown once it is there.
    Switch(Option<String>),
    SystemInfo,
    /// What is playing, or the given words in its place.
    NowPlaying(Option<String>),
    Plain,
}

pub ghost enum CommandKindView {
    Switch(Option<Seq<char>>),
    SystemInfo,
    NowPlaying(Option<Seq<char>>),
    Plain,
}

impl View for CommandKind {
    type V = CommandKindView;

    open spec fn view(&self) -> CommandKindView {
        match self {
            CommandKind::Switch(target) => CommandKindView::Switch(opt_text(*target)),
            CommandKind::SystemInfo => CommandKindView::SystemInfo,
            CommandKind::NowPlaying(custom) => CommandKindView::NowPlaying(opt_text(*custom)),
            CommandKind::Plain => CommandKindView::Plain,
        }
    }
}

/// The words that are given in place of what is playing.
pub open spec fn custom_track(message: Seq<char>) -> Option<Seq<char>> {
    match strip_prefix(trim(message), "/np"@) {
        Some(rest) => if trim(rest).len() > 0 {
            Some(trim(rest))
        } else {
            None
        },
        None => None,
    }
}

pub open spec fn command_kind(message: Seq<char>) -> CommandKindView {
    match (
        strip_prefix(message, "/query "@),
        strip_prefix(message, "/join "@),
        strip_prefix(message, "/j "@),
    ) {
        (Some(rest), _, _) => CommandKindView::Switch(first_word(rest)),
        (None, _, Some(rest)) => CommandKindView::Switch(first_word(rest)),
        (None, Some(rest), None) => CommandKindView::Switch(first_word(rest)),
        (None, None, None) => if trim(message) == "/sysinfo"@ || trim(message) == "/systeminfo"@ {
            CommandKindView::SystemInfo
        } else if trim(message) == "/np"@ || starts_with(message, "/np "@) {
            CommandKindView::NowPlaying(custom_track(message))
        } else {
            CommandKindView::Plain
        },
    }
}

fn custom_track_of(message: &str) -> (custom: Option<String>)
    ensures
        opt_text(custom) == custom_track(message@),
{
    let trimmed = str_trim(message);
    match str_strip_prefix(trimmed.as_str(), "/np") {
        Some(rest) => {
            let words = str_trim(rest.as_str());
            if words.as_str().is_empty() {
                None
            } else {
                Some(words)
            }
        },
        None => None,
    }
}

/// What a command of the user is about.
pub fn command_kind_of(message: &str) -> (kind: CommandKind)
    ensures
        kind@ == command_kind(message@),
{
    match str_strip_prefix(message, "/query ") {
        Some(rest) => {
            return CommandKind::Switch(str_first_word(rest.as_str()));
        },
        None => {},
    }
    match str_strip_prefix(message, "/j ") {
        Some(rest) => {
            return CommandKind::Switch(str_first_word(rest.as_str()));
        },
        None => {},
    }
    match str_strip_prefix(message, "/join ") {
        Some(rest) => {
            return CommandKind::Switch(str_first_word(rest.as_str()));
        },
        None => {},
    }
    let trimmed = str_trim(message);
    if same_text(trimmed.as_str(), "/sysinfo") || same_text(trimmed.as_str(), "/systeminfo") {
        CommandKind::SystemInfo
    } else if same_text(trimmed.as_str(), "/np") || str_starts_with(message, "/np ") {
        CommandKind::NowPlaying(custom_track_of(message))
    } else {
        CommandKind::Plain
    }
}

/// What is told of what is playing.
pub open spec fn now_playing(track: Seq<char>, source: Seq<char>, url: Seq<char>) -> Seq<char> {
    track + (if source.len() > 0 {
        " @ "@ + source
    } else {
        Seq::empty()
    }) + " 🎵"@ + (if url.len() > 0 {
        " "@ + url
    } else {
        Seq::empty()
    })
}

pub fn now_playing_text(track: &str, source: &str, url: &str) -> (text: String)
    ensures
        text@ == now_playing(track@, source@, url@),
{
    let mut text = track.to_owned();
    if !source.is_empty() {
        text.append(" @ ");
        text.append(source);
    }
    text.append(" 🎵");
    if !url.is_empty() {
        text.append(" ");
        text.append(url);
    }
    assert(text@ =~= now_playing(track@, source@, url@));
    text
}

/// What is told in place of what is playing.
pub fn custom_now_playing_text(custom: &str) -> (text: String)
    ensures
        text@ == custom@ + " 🎵"@,
{
    join2(custom, " 🎵")
}

/// What a player says of itself.
#[derive(Debug)]
pub struct Playing {
    pub track: String,
    pub source: String,
    pub url: String,
}

/// What is told of the music: the user's own words where there are any, and
/// otherwise what is playing. Nothing is told where nothing plays.
pub fn music_text(custom: Option<&str>, playing: Option<Playing>) -> (text: Option<String>)
    ensures
        opt_text(text) == (match (custom, playing) {
            (Some(words), _) => Some(words@ + " 🎵"@),
            (None, Some(p)) => Some(now_playing(p.track@, p.source@, p.url@)),
            (None, None) => None,
        }),
{
    match (custom, playing) {
        (Some(words), _) => Some(custom_now_playing_text(words)),
        (None, Some(p)) => Some(
            now_playing_text(p.track.as_str(), p.source.as_str(), p.url.as_str()),
        ),
        (None, None) => None,
    }
}

// ---------------------------------------------------------------------------
// Sending
// ---------------------------------------------------------------------------

/// A message and the people in it as JSON, given both as JSON texts.
pub open spec fn payload(body: Seq<char>, ids: Seq<Seq<char>>) -> Seq<char> {
    "{\"body\":"@ + body + ",\"user_ids\":["@ + joined_by(ids, ","@) + "]}"@
}

pub open spec fn mention_payload(body: Seq<char>, ids: Seq<Seq<char>>) -> Seq<char> {
    payload(json_string(body), ids.map_values(|id: Seq<char>| json_string(id)))
}

pub open spec fn mentioned_ids(mentions: Seq<SelectedMentionView>) -> Seq<Seq<char>> {
    mentions.map_values(|m: SelectedMentionView| m.user_id)
}

/// The command that sends a message with mentions.
pub open spec fn mention_command(body: Seq<char>, mentions: Seq<SelectedMentionView>) -> Seq<char> {
    "/matrix-send "@ + base64url(encode_utf8(mention_payload(body, mentioned_ids(mentions))))
}

/// A message and the people in it as JSON, given both as JSON texts.
pub fn mention_payload_from(body: &str, ids: &Vec<String>) -> (text: String)
    ensures
        text@ == payload(body@, texts(ids@)),
{
    let list = join_texts(ids, ",");
    let head = join3("{\"body\":", body, ",\"user_ids\":[");
    join3(head.as_str(), list.as_str(), "]}")
}

fn literals_of(mentions: &Vec<SelectedMention>) -> (list: Vec<String>)
    ensures
        texts(list@) == mentioned_ids(views(mentions@)).map_values(
            |id: Seq<char>| json_string(id),
        ),
{
    let mut list: Vec<String> = Vec::new();
    let mut i: usize = 0;
    while i < mentions.len()
        invariant
            i <= mentions@.len(),
            list@.len() == i,
            forall|j: int|
                0 <= j < i ==> (#[trigger] list@[j])@ == json_string(mentions@[j]@.user_id),
        decreases mentions@.len() - i,
    {
        list.push(json_literal(mentions[i].user_id.as_str()));
        i = i + 1;
    }
    assert(texts(list@) =~= mentioned_ids(views(mentions@)).map_values(
        |id: Seq<char>| json_string(id),
    ));
    list
}

fn mention_command_of(body: &str, mentions: &Vec<SelectedMention>) -> (command: String)
    ensures
        command@ == mention_command(body@, views(mentions@)),
{
    let literal = json_literal(body);
    let ids = literals_of(mentions);
    let text = mention_payload_from(literal.as_str(), &ids);
    let encoded = encode_base64url(text.as_str().as_bytes());
    join2("/matrix-send ", encoded.as_str())
}

/// The remembered messages with one more. The same message twice in a row is
/// remembered once.
pub open spec fn history_with(history: Seq<Seq<char>>, message: Seq<char>) -> Seq<Seq<char>> {
    if history.len() > 0 && history.last() == message {
        history
    } else if history.len() + 1 > MAX_HISTORY {
        history.push(message).skip(1)
    } else {
        history.push(message)
    }
}

impl AppView {
    /// Whether the message answers one of the buffer on view.
    pub open spec fn sends_reply(self) -> bool {
        self.reply_target is Some && self.selected_buffer_id == Some(
            self.reply_target->0.buffer_id,
        )
    }

    /// The text that goes out for a message into a buffer.
    pub open spec fn outgoing(self, id: Seq<char>, message: Seq<char>) -> Seq<char> {
        if self.reply_target is Some && self.reply_target->0.buffer_id == id {
            "/reply "@ + self.reply_target->0.matrix_event_id + " "@ + message
        } else if !starts_with(message, "/"@) && self.selected_mentions.len() > 0 && self.is_matrix(
            id,
        ) {
            mention_command(message, self.selected_mentions)
        } else {
            message
        }
    }

    /// The state with a message sent to the buffer on view. A command may
    /// change the list of buffers, so that is asked for again.
    pub open spec fn message_sent(self, message: Seq<char>) -> AppView {
        match self.selected_buffer_id {
            Some(id) => match self.owner(id) {
                Some((conn, raw_id)) => {
                    let sent = self.doing(
                        ActionView::SendMessage { conn, raw_id, text: self.outgoing(id, message) },
                    );
                    if starts_with(message, "/"@) && !self.sends_reply() {
                        sent.doing(ActionView::FetchBufferList { conn })
                    } else {
                        sent
                    }
                },
                None => self,
            },
            None => self,
        }
    }

    /// The state with nothing typed and nothing being completed.
    pub open spec fn input_cleared(self) -> AppView {
        AppView {
            input_text: Seq::empty(),
            completion: None,
            command_completion: None,
            command_completion_pending: None,
            history_index: None,
            ..self
        }
    }

    /// The state after a message was sent.
    pub open spec fn message_done(self, message: Seq<char>) -> AppView {
        AppView {
            command_history: history_with(self.command_history, message),
            reply_target: None,
            mention_completion: None,
            selected_mentions: Seq::empty(),
            ..self
        }.input_cleared()
    }

    /// The state with something asked for the buffer on view.
    pub open spec fn asking_info(self, kind: CommandKindView) -> AppView {
        match (self.selected_buffer_id, kind) {
            (Some(buffer_id), CommandKindView::SystemInfo) => self.doing(
                ActionView::GatherSystemInfo { buffer_id },
            ),
            (Some(buffer_id), CommandKindView::NowPlaying(custom)) => self.doing(
                ActionView::NowPlaying { buffer_id, custom },
            ),
            _ => self,
        }
    }

    /// The state with a buffer noted that is to be shown once it is there.
    pub open spec fn switch_noted(self, target: Option<Seq<char>>) -> AppView {
        AppView { pending_buffer_switch: target, ..self }
    }

    /// The state after the user sent what was typed.
    pub open spec fn input_sent(self) -> AppView {
        let message = self.input_text;
        if message.len() == 0 {
            self
        } else {
            let kind = if starts_with(message, "/"@) && !self.sends_reply() {
                command_kind(message)
            } else {
                CommandKindView::Plain
            };
            match kind {
                CommandKindView::Switch(target) => self.switch_noted(target).message_sent(
                    message,
                ).message_done(message),
                CommandKindView::Plain => self.message_sent(message).message_done(message),
                _ => self.asking_info(kind).input_cleared(),
            }
        }
    }
}

impl WeeChatApp {
    fn does_send_reply(&self) -> (yes: bool)
        ensures
            yes == self@.sends_reply(),
    {
        match &self.reply_target {
            Some(reply) => opt_is(&self.selected_buffer_id, reply.buffer_id.as_str()),
            None => false,
        }
    }

    fn outgoing_text(&self, id: &str, message: &str) -> (text: String)
        requires
            self.wf(),
        ensures
            text@ == self@.outgoing(id@, message@),
    {
        match &self.reply_target {
            Some(reply) => {
                if same_text(reply.buffer_id.as_str(), id) {
                    return matrix_reply_command(reply.matrix_event_id.as_str(), message);
                }
            },
            None => {},
        }
        assert(self@.selected_mentions.len() == self.selected_mentions@.len());
        if !str_starts_with(message, "/") && self.selected_mentions.len() > 0
            && self.is_matrix_buffer(id) {
            mention_command_of(message, &self.selected_mentions)
        } else {
            message.to_owned()
        }
    }

    fn send_message(&mut self, message: &str)
        requires
            old(self).wf(),
        ensures
            final(self).wf(),
            final(self)@ == old(self)@.message_sent(message@),
    {
        let id = match &self.selected_buffer_id {
            Some(id) => id.clone(),
            None => {
                return ;
            },
        };
        match self.client_for_buffer(id.as_str()) {
            Some((conn, raw_id)) => {
                let text = self.outgoing_text(id.as_str(), message);
                let lists = str_starts_with(message, "/") && !self.does_send_reply();
                self.act(Action::SendMessage { conn: conn.clone(), raw_id, text });
                if lists {
                    self.act(Action::FetchBufferList { conn });
                }
            },
            None => {},
        }
    }

    fn clear_input(&mut self)
        ensures
            final(self)@ == old(self)@.input_cleared(),
            old(self).wf() ==> final(self).wf(),
    {
        let ghost start = self@;
        self.input_text = String::new();
        assert(self.input_text@ =~= Seq::empty());
        self.completion = None;
        self.command_completion = None;
        self.command_completion_pending = None;
        self.history_index = None;
        assert(self@.profiles == start.profiles);
    }

    fn finish_message(&mut self, message: String)
        ensures
            final(self)@ == old(self)@.message_done(message@),
            old(self).wf() ==> final(self).wf(),
    {
        let ghost start = self@;
        remember_message(&mut self.command_history, message);
        self.reply_target = None;
        self.mention_completion = None;
        self.selected_mentions = Vec::new();
        assert(views(self.selected_mentions@) =~= Seq::empty());
        self.clear_input();
        assert(self@.profiles == start.profiles);
    }

    fn set_pending_switch(&mut self, target: Option<String>)
        ensures
            final(self)@ == old(self)@.switch_noted(opt_text(target)),
            old(self).wf() ==> final(self).wf(),
    {
        let ghost before = self@;
        self.pending_buffer_switch = target;
        assert(self@.buffers == before.buffers);
    }

    fn ask_info(&mut self, kind: CommandKind)
        ensures
            final(self)@ == old(self)@.asking_info(kind@),
            old(self).wf() ==> final(self).wf(),
    {
        let selected = clone_opt(&self.selected_buffer_id);
        match (selected, kind) {
            (Some(buffer_id), CommandKind::SystemInfo) => {
                self.act(Action::GatherSystemInfo { buffer_id });
            },
            (Some(buffer_id), CommandKind::NowPlaying(custom)) => {
                self.act(Action::NowPlaying { buffer_id, custom });
            },
            _ => {},
        }
    }

    /// Sends what was typed: as a message, an answer, a message with mentions,
    /// or a command.
    pub fn send_current_message(&mut self)
        requires
            old(self).wf(),
        ensures
            final(self).wf(),
            final(self)@ == old(self)@.input_sent(),
    {
        if self.input_text.as_str().is_empty() {
            return ;
        }
        let message = self.input_text.clone();
        let kind = if str_starts_with(message.as_str(), "/") && !self.does_send_reply() {
            command_kind_of(message.as_str())
        } else {
            CommandKind::Plain
        };
        match kind {
            CommandKind::Switch(target) => {
                self.set_pending_switch(target);
                self.send_message(message.as_str());
                self.finish_message(message);
            },
            CommandKind::Plain => {
                self.send_message(message.as_str());
                self.finish_message(message);
            },
            other => {
                self.ask_info(other);
                self.clear_input();
            },
        }
    }
}

fn remember_message(history: &mut VecDeque<String>, message: String)
    ensures
        texts(final(history)@) == history_with(texts(old(history)@), message@),
{
    let n: usize = history.len();
    let ghost before = history@;
    assert(texts(before).len() == n);
    if n > 0 {
        assert(texts(before).last() == before[n - 1]@);
        if same_text(history[n - 1].as_str(), message.as_str()) {
            return ;
        }
    }
    history.push_back(message);
    let ghost longer = history@;
    assert(texts(longer) =~= texts(before).push(message@));
    if history.len() > MAX_HISTORY {
        history.pop_front();
        assert(texts(history@) =~= texts(longer).skip(1));
    }
}

/// Whatever was typed, nothing of it is left once it is sent, and a message is
/// never sent twice.
pub proof fn sending_clears_the_input(state: AppView)
    requires
        state.input_text.len() > 0,
    ensures
        state.input_sent().input_text.len() == 0,
        state.input_sent().input_sent() == state.input_sent(),
        state.input_sent().command_history.len() <= state.command_history.len() + 1,
        state.command_history.len() <= MAX_HISTORY ==> state.input_sent().command_history.len()
            <= MAX_HISTORY,
{
}

/// An answer names exactly the event that it was begun for.
pub proof fn reply_names_the_chosen_event(state: AppView, id: Seq<char>, message: Seq<char>)
    requires
        state.reply_target is Some,
        state.reply_target->0.buffer_id == id,
    ensures
        state.outgoing(id, message) == "/reply "@ + state.reply_target->0.matrix_event_id + " "@
            + message,
{
}

// ---------------------------------------------------------------------------
// Other ways to send
// ---------------------------------------------------------------------------

impl AppView {
    /// The state with a text sent to a buffer.
    pub open spec fn text_sent(self, id: Seq<char>, text: Seq<char>) -> AppView {
        match self.owner(id) {
            Some((conn, raw_id)) => self.doing(ActionView::SendMessage { conn, raw_id, text }),
            None => self,
        }
    }

    /// The state with a command sent to a buffer and the buffers asked for.
    pub open spec fn command_sent(self, id: Seq<char>, command: Seq<char>) -> AppView {
        match self.owner(id) {
            Some((conn, raw_id)) => self.doing(
                ActionView::SendMessage { conn, raw_id, text: command },
            ).doing(ActionView::FetchBufferList { conn }),
            None => self,
        }
    }

    /// The state after what was typed into a thread was sent.
    pub open spec fn thread_sent(self) -> AppView {
        let message = trim(self.thread_input_text);
        match self.open_thread_buffer_id {
            Some(id) => if message.len() > 0 && buffer_of(self.buffers, id) is Some && buffer_of(
                self.buffers,
                id,
            )->0.is_thread() && self.owner(id) is Some {
                AppView { thread_input_text: Seq::empty(), ..self.text_sent(id, message) }
            } else {
                self
            },
            None => self,
        }
    }

    /// The state with the buffer noted that a command leads to.
    pub open spec fn command_noted(self, command: Seq<char>) -> AppView {
        AppView {
            pending_buffer_switch: match strip_prefix(command, "/query "@) {
                Some(rest) => Some(trim(rest)),
                None => match strip_prefix(command, "/join "@) {
                    Some(rest) => Some(trim(rest)),
                    None => self.pending_buffer_switch,
                },
            },
            ..self
        }
    }
}

impl WeeChatApp {
    /// Sends a text to a buffer.
    pub fn send_text(&mut self, buffer_id: &str, text: String)
        ensures
            final(self)@ == old(self)@.text_sent(buffer_id@, text@),
            old(self).wf() ==> final(self).wf(),
    {
        match self.client_for_buffer(buffer_id) {
            Some((conn, raw_id)) => {
                self.act(Action::SendMessage { conn, raw_id, text });
            },
            None => {},
        }
    }

    fn clear_thread_input(&mut self)
        ensures
            final(self)@ == (AppView { thread_input_text: Seq::empty(), ..old(self)@ }),
            old(self).wf() ==> final(self).wf(),
    {
        let ghost start = self@;
        self.thread_input_text = String::new();
        assert(self.thread_input_text@ =~= Seq::empty());
        assert(self@.profiles == start.profiles);
    }

    /// Sends what was typed into a thread.
    pub fn send_thread_message(&mut self)
        requires
            old(self).wf(),
        ensures
            final(self).wf(),
            final(self)@ == old(self)@.thread_sent(),
    {
        let message = str_trim(self.thread_input_text.as_str());
        if message.as_str().is_empty() {
            return ;
        }
        let id = match &self.open_thread_buffer_id {
            Some(id) => id.clone(),
            None => {
                return ;
            },
        };
        let is_thread = match self.buffer_by_id(id.as_str()) {
            Some(b) => b.is_matrix_thread(),
            None => false,
        };
        if !is_thread || self.client_for_buffer(id.as_str()).is_none() {
            return ;
        }
        self.send_text(id.as_str(), message);
        self.clear_thread_input();
    }

    /// Sends a command to a buffer.
    pub fn send_command_to_buffer(&mut self, buffer_id: &str, command: &str)
        ensures
            final(self)@ == old(self)@.command_sent(buffer_id@, command@),
            old(self).wf() ==> final(self).wf(),
    {
        match self.client_for_buffer(buffer_id) {
            Some((conn, raw_id)) => {
                self.act(
                    Action::SendMessage { conn: conn.clone(), raw_id, text: command.to_owned() },
                );
                self.act(Action::FetchBufferList { conn });
            },
            None => {},
        }
    }

    fn note_command(&mut self, command: &str)
        ensures
            final(self)@ == old(self)@.command_noted(command@),
            old(self).wf() ==> final(self).wf(),
    {
        let ghost start = self@;
        match str_strip_prefix(command, "/query ") {
            Some(rest) => {
                self.pending_buffer_switch = Some(str_trim(rest.as_str()));
            },
            None => match str_strip_prefix(command, "/join ") {
                Some(rest) => {
                    self.pending_buffer_switch = Some(str_trim(rest.as_str()));
                },
                None => {},
            },
        }
        assert(self@.profiles == start.profiles);
    }

    /// Sends a command to the buffer on view.
    pub fn send_command(&mut self, command: &str)
        ensures
            final(self)@ == (match old(self)@.selected_buffer_id {
                Some(id) => old(self)@.command_noted(command@).command_sent(id, command@),
                None => old(self)@.command_noted(command@),
            }),
            old(self).wf() ==> final(self).wf(),
    {
        self.note_command(command);
        let selected = clone_opt(&self.selected_buffer_id);
        match selected {
            Some(id) => {
                self.send_command_to_buffer(id.as_str(), command);
            },
            None => {},
        }
    }
}

/// What is typed into a thread never goes to another buffer.
pub proof fn thread_messages_stay_in_the_thread(state: AppView)
    ensures
        state.thread_sent() == state || (state.open_thread_buffer_id is Some && state.owner(
            state.open_thread_buffer_id->0,
        ) is Some && state.thread_sent().outbox == state.outbox.push(
            ActionView::SendMessage {
                conn: (state.owner(state.open_thread_buffer_id->0)->0).0,
                raw_id: (state.owner(state.open_thread_buffer_id->0)->0).1,
                text: trim(state.thread_input_text),
            },
        )),
{
}

// ---------------------------------------------------------------------------
// Completing
// ---------------------------------------------------------------------------

/// A question to the server about completions, and whom to ask.
#[derive(Debug)]
pub struct CompletionAsk {
    pub conn: String,
    pub raw_id: String,
    pub request: CommandCompletionRequest,
}

pub ghost struct AskView {
    pub conn: Seq<char>,
    pub raw_id: Seq<char>,
    pub request: CompletionRequestView,
}

impl View for CompletionAsk {
    type V = AskView;

    open spec fn view(&self) -> AskView {
        AskView { conn: self.conn@, raw_id: self.raw_id@, request: self.request@ }
    }
}

pub open spec fn next_sequence(n: u64) -> u64 {
    if n == u64::MAX {
        0
    } else {
        (n + 1) as u64
    }
}

impl AppView {
    /// Whether completions of just this input are being asked for.
    pub open spec fn is_asking(self, id: Seq<char>, cursor: int) -> bool {
        match self.command_completion_pending {
            Some(p) => p.buffer_id == id && p.input == self.input_text && p.cursor_byte_idx
                == cursor,
            None => false,
        }
    }

    /// The request that is made for the input.
    pub open spec fn next_request(self, id: Seq<char>, cursor: int) -> CompletionRequestView {
        CompletionRequestView {
            sequence: next_sequence(self.command_completion_request_seq),
            buffer_id: id,
            input: self.input_text,
            cursor_byte_idx: cursor as usize,
        }
    }

    /// Whether completions have to be asked for.
    pub open spec fn needs_completions(self, cursor_char: int) -> bool {
        starts_with(self.input_text, "/"@) && self.selected_buffer_id is Some && !self.is_asking(
            self.selected_buffer_id->0,
            byte_of_char(self.input_text, cursor_char),
        )
    }

    /// The question to the server, where one is put.
    pub open spec fn completion_ask(self, cursor_char: int) -> Option<AskView> {
        if self.needs_completions(cursor_char) {
            match self.owner(self.selected_buffer_id->0) {
                Some((conn, raw_id)) => Some(
                    AskView {
                        conn,
                        raw_id,
                        request: self.next_request(
                            self.selected_buffer_id->0,
                            byte_of_char(self.input_text, cursor_char),
                        ),
                    },
                ),
                None => None,
            }
        } else {
            None
        }
    }

    /// The state with no completion of a command shown or asked for.
    pub open spec fn completions_dropped(self) -> AppView {
        AppView { command_completion: None, command_completion_pending: None, ..self }
    }

    /// The state before the server is asked. Mentions are not offered beside
    /// completions of a command.
    pub open spec fn completion_planned(self, cursor_char: int) -> AppView {
        if !starts_with(self.input_text, "/"@) {
            self.completions_dropped()
        } else {
            let alone = AppView { mention_completion: None, ..self };
            if self.selected_buffer_id is None {
                alone.completions_dropped()
            } else if self.needs_completions(cursor_char) {
                AppView {
                    command_completion_request_seq: next_sequence(
                        self.command_completion_request_seq,
                    ),
                    ..alone.completions_dropped()
                }
            } else {
                alone
            }
        }
    }

    /// The state after the server was or was not asked.
    pub open spec fn completion_asked(self, request: CompletionRequestView, sent: bool) -> AppView {
        AppView {
            command_completion_pending: if sent {
                Some(request)
            } else {
                None
            },
            ..self
        }
    }
}

impl WeeChatApp {
    fn drop_completions(&mut self)
        ensures
            final(self)@ == old(self)@.completions_dropped(),
            old(self).wf() ==> final(self).wf(),
    {
        let ghost start = self@;
        self.command_completion = None;
        self.command_completion_pending = None;
        assert(self@.profiles == start.profiles);
    }

    fn asks_already(&self, id: &str, cursor: usize) -> (yes: bool)
        ensures
            yes == self@.is_asking(id@, cursor as int),
    {
        match &self.command_completion_pending {
            Some(p) => same_text(p.buffer_id.as_str(), id) && same_text(
                p.input.as_str(),
                self.input_text.as_str(),
            ) && p.cursor_byte_idx == cursor,
            None => false,
        }
    }

    fn drop_mentions(&mut self)
        ensures
            final(self)@ == (AppView { mention_completion: None, ..old(self)@ }),
            old(self).wf() ==> final(self).wf(),
    {
        let ghost start = self@;
        self.mention_completion = None;
        assert(self@.profiles == start.profiles);
    }

    fn count_request(&mut self)
        ensures
            final(self)@ == (AppView {
                command_completion_request_seq: next_sequence(
                    old(self)@.command_completion_request_seq,
                ),
                ..old(self)@
            }),
            old(self).wf() ==> final(self).wf(),
    {
        let ghost start = self@;
        self.command_completion_request_seq = if self.command_completion_request_seq == u64::MAX {
            0
        } else {
            self.command_completion_request_seq + 1
        };
        assert(self@.profiles == start.profiles);
    }

    fn completion_ask_of(&self, cursor_char_idx: usize) -> (ask: Option<CompletionAsk>)
        ensures
            opt_view(ask) == self@.completion_ask(cursor_char_idx as int),
    {
        let id = match &self.selected_buffer_id {
            Some(id) => id,
            None => {
                return None;
            },
        };
        let cursor: usize = char_to_byte(self.input_text.as_str(), cursor_char_idx);
        if !str_starts_with(self.input_text.as_str(), "/") || self.asks_already(
            id.as_str(),
            cursor,
        ) {
            return None;
        }
        match self.client_for_buffer(id.as_str()) {
            Some((conn, raw_id)) => {
                let sequence: u64 = if self.command_completion_request_seq == u64::MAX {
                    0
                } else {
                    self.command_completion_request_seq + 1
                };
                Some(
                    CompletionAsk {
                        conn,
                        raw_id,
                        request: CommandCompletionRequest {
                            sequence,
                            buffer_id: id.clone(),
                            input: self.input_text.clone(),
                            cursor_byte_idx: cursor,
                        },
                    },
                )
            },
            None => None,
        }
    }

    /// Prepares to ask the server for completions of a command. The answer is
    /// the question to put, where there is one.
    pub fn request_command_completion(&mut self, cursor_char_idx: usize) -> (ask: Option<
        CompletionAsk,
    >)
        ensures
            opt_view(ask) == old(self)@.completion_ask(cursor_char_idx as int),
            final(self)@ == old(self)@.completion_planned(cursor_char_idx as int),
            old(self).wf() ==> final(self).wf(),
    {
        let ask = self.completion_ask_of(cursor_char_idx);
        if !str_starts_with(self.input_text.as_str(), "/") {
            self.drop_completions();
            return ask;
        }
        let needed = match &self.selected_buffer_id {
            Some(id) => {
                let cursor: usize = char_to_byte(self.input_text.as_str(), cursor_char_idx);
                !self.asks_already(id.as_str(), cursor)
            },
            None => false,
        };
        let unselected = self.selected_buffer_id.is_none();
        self.drop_mentions();
        if unselected {
            self.drop_completions();
        } else if needed {
            self.drop_completions();
            self.count_request();
        }
        ask
    }

    /// Notes whether the server was asked for completions.
    pub fn note_completion_request(&mut self, request: CommandCompletionRequest, sent: bool)
        ensures
            final(self)@ == old(self)@.completion_asked(request@, sent),
            old(self).wf() ==> final(self).wf(),
    {
        let ghost start = self@;
        self.command_completion_pending = if sent {
            Some(request)
        } else {
            None
        };
        assert(self@.profiles == start.profiles);
    }
}

/// The place that a step leads to, round and round.
pub open spec fn stepped(index: int, delta: int, len: int) -> int {
    (index + delta) % len
}

/// Steps through a list, round and round.
pub fn step_index(index: usize, delta: isize, len: usize) -> (next: usize)
    requires
        len > 0,
    ensures
        next == stepped(index as int, delta as int, len as int),
        next < len,
{
    let whole: i128 = index as i128 + delta as i128;
    proof {
        vstd::arithmetic::div_mod::lemma_mod_bound(whole as int, len as int);
    }
    if whole >= 0 {
        (whole as u128 % len as u128) as usize
    } else {
        let back: u128 = (-whole) as u128;
        let rest: u128 = back % len as u128;
        proof {
            lemma_negative_step(back as int, len as int);
        }
        if rest == 0 {
            0
        } else {
            len - rest as usize
        }
    }
}

proof fn lemma_negative_step(back: int, len: int)
    requires
        back > 0,
        len > 0,
    ensures
        (-back) % len == (if back % len == 0 {
            0
        } else {
            len - back % len
        }),
        0 <= back % len < len,
{
    vstd::arithmetic::div_mod::lemma_fundamental_div_mod(back, len);
    vstd::arithmetic::div_mod::lemma_mod_bound(back, len);
    let q = back / len;
    let r = back % len;
    if r == 0 {
        assert(-back == len * (-q)) by (nonlinear_arith)
            requires
                back == len * q,
        ;
        vstd::arithmetic::div_mod::lemma_mod_multiples_basic(-q, len);
        assert((-q) * len == len * (-q)) by (nonlinear_arith);
    } else {
        assert(-back == len * (-q - 1) + (len - r)) by (nonlinear_arith)
            requires
                back == len * q + r,
        ;
        vstd::arithmetic::div_mod::lemma_fundamental_div_mod_converse(
            -back,
            len,
            -q - 1,
            len - r,
        );
    }
}

/// A step back undoes a step.
pub proof fn step_back_undoes_step(index: int, delta: int, len: int)
    requires
        0 <= index < len,
    ensures
        stepped(stepped(index, delta, len), -delta, len) == index,
{
    vstd::arithmetic::div_mod::lemma_add_mod_noop(index + delta, -delta, len);
    vstd::arithmetic::div_mod::lemma_add_mod_noop((index + delta) % len, -delta, len);
    vstd::arithmetic::div_mod::lemma_mod_twice(index + delta, len);
    vstd::arithmetic::div_mod::lemma_small_mod(index as nat, len as nat);
}

impl AppView {
    /// The state with another completion of a command chosen.
    pub open spec fn command_stepped(self, delta: int) -> AppView {
        AppView {
            command_completion: match self.command_completion {
                Some(state) => Some(
                    CommandCompletionView {
                        index: stepped(state.index as int, delta, state.matches.len() as int) as usize,
                        ..state
                    },
                ),
                None => None,
            },
            ..self
        }
    }

    /// The state with another mention chosen.
    pub open spec fn mention_stepped(self, delta: int) -> AppView {
        AppView {
            mention_completion: match self.mention_completion {
                Some(state) => Some(
                    MentionCompletionView {
                        index: stepped(state.index as int, delta, state.matches.len() as int) as usize,
                        ..state
                    },
                ),
                None => None,
            },
            ..self
        }
    }

    /// The completion that is accepted: the given one or the chosen one.
    pub open spec fn accepted(self, index: Option<usize>) -> Option<(Seq<char>, int)> {
        match self.command_completion {
            Some(state) => completed(
                state.source_text,
                state.cursor_byte_idx as int,
                state.position_replace as int,
                state.base_word,
                state.matches[chosen(index, state.index, state.matches.len())],
                state.add_space,
            ),
            None => None,
        }
    }

    /// The state with a completion of a command in the input.
    pub open spec fn command_accepted(self, index: Option<usize>) -> AppView {
        match self.accepted(index) {
            Some((text, _)) => AppView {
                input_text: text,
                command_completion: None,
                command_completion_pending: None,
                ..self
            },
            None => AppView { command_completion: None, ..self },
        }
    }

    /// The state after a completion of a command was accepted: completions of
    /// what comes behind it are asked for at once.
    pub open spec fn command_completed(self, index: Option<usize>) -> AppView {
        match self.accepted(index) {
            Some((_, cursor)) => self.command_accepted(index).completion_planned(cursor),
            None => self.command_accepted(index),
        }
    }

    /// Where the cursor stands after a completion of a command was accepted,
    /// and what the server is then asked.
    pub open spec fn command_sequel(self, index: Option<usize>) -> Option<AcceptedView> {
        match self.accepted(index) {
            Some((_, cursor)) => Some(
                AcceptedView { cursor, ask: self.command_accepted(index).completion_ask(cursor) },
            ),
            None => None,
        }
    }
}

/// Completing goes on behind an accepted command: where the buffer on view has
/// a connection, its server is asked about the new input, under a number of its
/// own, and nothing that was offered before stays on offer.
pub proof fn completing_goes_on(state: AppView, index: Option<usize>)
    requires
        state.accepted(index) is Some,
        starts_with((state.accepted(index)->0).0, "/"@),
        state.selected_buffer_id is Some,
        state.owner(state.selected_buffer_id->0) is Some,
    ensures
        ({
            let (text, cursor) = state.accepted(index)->0;
            let after = state.command_completed(index);
            let sequel = state.command_sequel(index);
            &&& after.input_text == text
            &&& after.command_completion is None && after.mention_completion is None
            &&& sequel is Some && sequel->0.cursor == cursor && sequel->0.ask is Some
            &&& sequel->0.ask->0.request.input == text
            &&& sequel->0.ask->0.request.buffer_id == state.selected_buffer_id->0
            &&& sequel->0.ask->0.request.sequence == next_sequence(
                state.command_completion_request_seq,
            )
            &&& after.command_completion_request_seq == sequel->0.ask->0.request.sequence
        }),
{
}

/// What comes of a completion of a command that was accepted.
#[derive(Debug)]
pub struct AcceptedCommand {
    /// The character that the cursor stands at.
    pub cursor: usize,
    /// What the server is asked next.
    pub ask: Option<CompletionAsk>,
}

pub ghost struct AcceptedView {
    pub cursor: int,
    pub ask: Option<AskView>,
}

impl View for AcceptedCommand {
    type V = AcceptedView;

    open spec fn view(&self) -> AcceptedView {
        AcceptedView { cursor: self.cursor as int, ask: opt_view(self.ask) }
    }
}

/// The given place or the chosen one, the last where it is beyond the end.
pub open spec fn chosen(index: Option<usize>, current: usize, len: nat) -> int {
    let wanted = match index {
        Some(i) => i,
        None => current,
    };
    if wanted < len {
        wanted as int
    } else {
        len - 1
    }
}

fn chosen_of(index: Option<usize>, current: usize, len: usize) -> (at: usize)
    requires
        len > 0,
    ensures
        at == chosen(index, current, len as nat),
        at < len,
{
    let wanted: usize = match index {
        Some(i) => i,
        None => current,
    };
    if wanted < len {
        wanted
    } else {
        len - 1
    }
}

impl WeeChatApp {
    /// Chooses another completion of a command.
    pub fn move_command_completion_selection(&mut self, delta: isize)
        requires
            old(self)@.command_completion is Some ==> old(self)@.command_completion->0.matches.len()
                > 0,
        ensures
            final(self)@ == old(self)@.command_stepped(delta as int),
            old(self).wf() ==> final(self).wf(),
    {
        let ghost before = self@;
        match self.command_completion.take() {
            Some(state) => {
                let mut state = state;
                assert(texts(state.matches@).len() == state.matches@.len());
                state.index = step_index(state.index, delta, state.matches.len());
                self.command_completion = Some(state);
            },
            None => {},
        }
        assert(self@.buffers == before.buffers);
    }

    /// Chooses another mention.
    pub fn move_mention_selection(&mut self, delta: isize)
        requires
            old(self)@.mention_completion is Some ==> old(self)@.mention_completion->0.matches.len()
                > 0,
        ensures
            final(self)@ == old(self)@.mention_stepped(delta as int),
            old(self).wf() ==> final(self).wf(),
    {
        let ghost before = self@;
        match self.mention_completion.take() {
            Some(state) => {
                let mut state = state;
                assert(views(state.matches@).len() == state.matches@.len());
                state.index = step_index(state.index, delta, state.matches.len());
                self.mention_completion = Some(state);
            },
            None => {},
        }
        assert(self@.buffers == before.buffers);
    }

    fn accepted_of(&self, index: Option<usize>) -> (result: Option<(String, usize)>)
        requires
            self@.command_completion is Some ==> self@.command_completion->0.matches.len() > 0,
        ensures
            match result {
                Some((text, cursor)) => self@.accepted(index) == Some((text@, cursor as int)),
                None => self@.accepted(index) is None,
            },
    {
        match &self.command_completion {
            Some(state) => {
                assert(texts(state.matches@).len() == state.matches@.len());
                let at: usize = chosen_of(index, state.index, state.matches.len());
                assert(texts(state.matches@)[at as int] == state.matches@[at as int]@);
                apply_native_completion(
                    state.source_text.as_str(),
                    state.cursor_byte_idx,
                    state.position_replace,
                    state.base_word.as_str(),
                    state.matches[at].as_str(),
                    state.add_space,
                )
            },
            None => None,
        }
    }

    fn insert_command(&mut self, index: Option<usize>) -> (cursor: Option<usize>)
        requires
            old(self)@.command_completion is Some ==> old(self)@.command_completion->0.matches.len()
                > 0,
        ensures
            final(self)@ == old(self)@.command_accepted(index),
            match cursor {
                Some(c) => old(self)@.accepted(index) is Some && (old(self)@.accepted(index)->0).1
                    == c,
                None => old(self)@.accepted(index) is None,
            },
            old(self).wf() ==> final(self).wf(),
    {
        let ghost before = self@;
        let result = self.accepted_of(index);
        self.command_completion = None;
        assert(self@.buffers == before.buffers);
        match result {
            Some((text, cursor)) => {
                self.input_text = text;
                self.command_completion_pending = None;
                assert(self@.buffers == before.buffers);
                Some(cursor)
            },
            None => None,
        }
    }

    /// Accepts a completion of a command, where it fits the input, and goes on
    /// to ask for completions of what comes behind it. The answer is where the
    /// cursor then stands and what the server is to be asked.
    pub fn accept_command_completion(&mut self, index: Option<usize>) -> (accepted: Option<
        AcceptedCommand,
    >)
        requires
            old(self)@.command_completion is Some ==> old(self)@.command_completion->0.matches.len()
                > 0,
        ensures
            final(self)@ == old(self)@.command_completed(index),
            opt_view(accepted) == old(self)@.command_sequel(index),
            old(self).wf() ==> final(self).wf(),
    {
        match self.insert_command(index) {
            Some(cursor) => {
                let ask = self.request_command_completion(cursor);
                Some(AcceptedCommand { cursor, ask })
            },
            None => None,
        }
    }
}

} // verus!
