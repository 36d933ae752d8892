//! The state of the program, as far as decisions are made on it.
use vstd::prelude::*;
use vstd::hash_map::StringHashMap;
use std::collections::VecDeque;
use crate::collections::{TextMap, TextSet};
use crate::connection::{ConnectionHandle, ConnectionProfile, ConnectionProfileView, ConnectionView};
use crate::markers::{MarkerView, SavedReadMarker};
use crate::models::{
    copy_list, opt_view, Buffer, BufferView, CandidateView, MatrixMemberProfile, MentionCandidate,
};
use crate::people::{CardView, UserProfileCard};
use crate::seqs::{last_index, lemma_last_index, lemma_last_is, position_from, first_index, views};
use crate::text::{clone_texts, join2, opt_text, same_text, str_strip_prefix, strip_prefix, texts};
use crate::time::Timestamp;

verus! {

/// How many lines a buffer keeps.
pub const MAX_STORED_LINES: usize = 10_000;

/// How many lines are asked for when a buffer is first shown.
pub const INITIAL_LINES: usize = 300;

/// How many more lines a page of older history asks for.
pub const LOAD_MORE_LINES: usize = 300;

/// How many entries the log of a connection keeps.
pub const MAX_LOG_ENTRIES: usize = 500;

/// The clocks as they stand when something happens.
#[derive(Debug)]
pub struct Clock {
    /// Local time, hours and minutes.
    pub hm: String,
    /// Local time, hours, minutes and seconds.
    pub hms: String,
    pub now: Timestamp,
    /// Nanoseconds on a clock that never goes back.
    pub ticks: u64,
}

/// What is known of one entry of a relay answer beside its JSON: when it
/// happened, and the lists that its local variables hold as texts.
#[derive(Debug)]
pub struct RelayEntry {
    /// When the local clock showed the date of the entry. None where it did so
    /// twice or never, and where the date is no time on the local clock.
    pub local: Option<Timestamp>,
    /// When the entry came.
    pub arrival: Timestamp,
    pub mentions: Option<Vec<MentionCandidate>>,
    pub members: Option<Vec<MatrixMemberProfile>>,
}

#[derive(Debug)]
pub struct CompletionState {
    pub original_word: String,
    pub matches: Vec<String>,
    pub index: usize,
    pub word_start_idx: usize,
}

pub ghost struct CompletionView {
    pub original_word: Seq<char>,
    pub matches: Seq<Seq<char>>,
    pub index: usize,
    pub word_start_idx: usize,
}

impl View for CompletionState {
    type V = CompletionView;

    open spec fn view(&self) -> CompletionView {
        CompletionView {
            original_word: self.original_word@,
            matches: texts(self.matches@),
            index: self.index,
            word_start_idx: self.word_start_idx,
        }
    }
}

impl Clone for CompletionState {
    fn clone(&self) -> (copy: Self)
        ensures
            copy@ == self@,
    {
        CompletionState {
            original_word: self.original_word.clone(),
            matches: clone_texts(&self.matches),
            index: self.index,
            word_start_idx: self.word_start_idx,
        }
    }
}

#[derive(Debug)]
pub struct CommandCompletionState {
    pub context: String,
    pub source_text: String,
    pub cursor_byte_idx: usize,
    pub base_word: String,
    pub position_replace: usize,
    pub add_space: bool,
    pub matches: Vec<String>,
    pub index: usize,
}

pub ghost struct CommandCompletionView {
    pub context: Seq<char>,
    pub source_text: Seq<char>,
    pub cursor_byte_idx: usize,
    pub base_word: Seq<char>,
    pub position_replace: usize,
    pub add_space: bool,
    pub matches: Seq<Seq<char>>,
    pub index: usize,
}

impl View for CommandCompletionState {
    type V = CommandCompletionView;

    open spec fn view(&self) -> CommandCompletionView {
        CommandCompletionView {
            context: self.context@,
            source_text: self.source_text@,
            cursor_byte_idx: self.cursor_byte_idx,
            base_word: self.base_word@,
            position_replace: self.position_replace,
            add_space: self.add_space,
            matches: texts(self.matches@),
            index: self.index,
        }
    }
}

impl Clone for CommandCompletionState {
    fn clone(&self) -> (copy: Self)
        ensures
            copy@ == self@,
    {
        CommandCompletionState {
            context: self.context.clone(),
            source_text: self.source_text.clone(),
            cursor_byte_idx: self.cursor_byte_idx,
            base_word: self.base_word.clone(),
            position_replace: self.position_replace,
            add_space: self.add_space,
            matches: clone_texts(&self.matches),
            index: self.index,
        }
    }
}

#[derive(Debug)]
pub struct CommandCompletionRequest {
    pub sequence: u64,
    pub buffer_id: String,
    pub input: String,
    pub cursor_byte_idx: usize,
}

pub ghost struct CompletionRequestView {
    pub sequence: u64,
    pub buffer_id: Seq<char>,
    pub input: Seq<char>,
    pub cursor_byte_idx: usize,
}

impl View for CommandCompletionRequest {
    type V = CompletionRequestView;

    open spec fn view(&self) -> CompletionRequestView {
        CompletionRequestView {
            sequence: self.sequence,
            buffer_id: self.buffer_id@,
            input: self.input@,
            cursor_byte_idx: self.cursor_byte_idx,
        }
    }
}

impl Clone for CommandCompletionRequest {
    fn clone(&self) -> (copy: Self)
        ensures
            copy@ == self@,
    {
        CommandCompletionRequest {
            sequence: self.sequence,
            buffer_id: self.buffer_id.clone(),
            input: self.input.clone(),
            cursor_byte_idx: self.cursor_byte_idx,
        }
    }
}

#[derive(Debug)]
pub struct ReplyTarget {
    pub buffer_id: String,
    pub matrix_event_id: String,
    pub sender: String,
    pub message: String,
}

pub ghost struct TargetView {
    pub buffer_id: Seq<char>,
    pub matrix_event_id: Seq<char>,
    pub sender: Seq<char>,
    pub message: Seq<char>,
}

impl View for ReplyTarget {
    type V = TargetView;

    open spec fn view(&self) -> TargetView {
        TargetView {
            buffer_id: self.buffer_id@,
            matrix_event_id: self.matrix_event_id@,
            sender: self.sender@,
            message: self.message@,
        }
    }
}

impl Clone for ReplyTarget {
    fn clone(&self) -> (copy: Self)
        ensures
            copy@ == self@,
    {
        ReplyTarget {
            buffer_id: self.buffer_id.clone(),
            matrix_event_id: self.matrix_event_id.clone(),
            sender: self.sender.clone(),
            message: self.message.clone(),
        }
    }
}

#[derive(Debug)]
pub struct RedactionTarget {
    pub buffer_id: String,
    pub matrix_event_id: String,
    pub sender: String,
    pub message: String,
}

impl View for RedactionTarget {
    type V = TargetView;

    open spec fn view(&self) -> TargetView {
        TargetView {
            buffer_id: self.buffer_id@,
            matrix_event_id: self.matrix_event_id@,
            sender: self.sender@,
            message: self.message@,
        }
    }
}

impl Clone for RedactionTarget {
    fn clone(&self) -> (copy: Self)
        ensures
            copy@ == self@,
    {
        RedactionTarget {
            buffer_id: self.buffer_id.clone(),
            matrix_event_id: self.matrix_event_id.clone(),
            sender: self.sender.clone(),
            message: self.message.clone(),
        }
    }
}

#[derive(Debug)]
pub struct MentionCompletionState {
    pub trigger_byte_idx: usize,
    pub cursor_byte_idx: usize,
    pub matches: Vec<MentionCandidate>,
    pub index: usize,
}

pub ghost struct MentionCompletionView {
    pub trigger_byte_idx: usize,
    pub cursor_byte_idx: usize,
    pub matches: Seq<CandidateView>,
    pub index: usize,
}

impl View for MentionCompletionState {
    type V = MentionCompletionView;

    open spec fn view(&self) -> MentionCompletionView {
        MentionCompletionView {
            trigger_byte_idx: self.trigger_byte_idx,
            cursor_byte_idx: self.cursor_byte_idx,
            matches: views(self.matches@),
            index: self.index,
        }
    }
}

impl Clone for MentionCompletionState {
    fn clone(&self) -> (copy: Self)
        ensures
            copy@ == self@,
    {
        MentionCompletionState {
            trigger_byte_idx: self.trigger_byte_idx,
            cursor_byte_idx: self.cursor_byte_idx,
            matches: copy_list(&self.matches),
            index: self.index,
        }
    }
}

#[derive(Debug)]
pub struct SelectedMention {
    pub label: String,
    pub user_id: String,
}

pub ghost struct SelectedMentionView {
    pub label: Seq<char>,
    pub user_id: Seq<char>,
}

impl View for SelectedMention {
    type V = SelectedMentionView;

    open spec fn view(&self) -> SelectedMentionView {
        SelectedMentionView {
            label: self.label@,
            user_id: self.user_id@,
        }
    }
}

impl Clone for SelectedMention {
    fn clone(&self) -> (copy: Self)
        ensures
            copy@ == self@,
    {
        SelectedMention {
            label: self.label.clone(),
            user_id: self.user_id.clone(),
        }
    }
}

/// Something to be done outside: a request to a connection, named by its
/// prefix, or a notification.
#[derive(Debug)]
pub enum Action {
    FetchBufferList { conn: String },
    SyncSubscriptions { conn: String },
    FetchHotlist { conn: String },
    RefreshBuffer { conn: String, raw_id: String },
    FetchLines { conn: String, raw_id: String, count: usize },
    FetchLinesBefore { conn: String, raw_id: String, timestamp: String },
    FetchNicks { conn: String, raw_id: String },
    MarkRead { conn: String, raw_id: String },
    SendMessage { conn: String, raw_id: String, text: String },
    Notify { title: String, body: String },
    GatherSystemInfo { buffer_id: String },
    NowPlaying { buffer_id: String, custom: Option<String> },
}

pub ghost enum ActionView {
    FetchBufferList { conn: Seq<char> },
    SyncSubscriptions { conn: Seq<char> },
    FetchHotlist { conn: Seq<char> },
    RefreshBuffer { conn: Seq<char>, raw_id: Seq<char> },
    FetchLines { conn: Seq<char>, raw_id: Seq<char>, count: usize },
    FetchLinesBefore { conn: Seq<char>, raw_id: Seq<char>, timestamp: Seq<char> },
    FetchNicks { conn: Seq<char>, raw_id: Seq<char> },
    MarkRead { conn: Seq<char>, raw_id: Seq<char> },
    SendMessage { conn: Seq<char>, raw_id: Seq<char>, text: Seq<char> },
    Notify { title: Seq<char>, body: Seq<char> },
    GatherSystemInfo { buffer_id: Seq<char> },
    NowPlaying { buffer_id: Seq<char>, custom: Option<Seq<char>> },
}

impl View for Action {
    type V = ActionView;

    open spec fn view(&self) -> ActionView {
        match self {
            Action::FetchBufferList { conn } => ActionView::FetchBufferList { conn: conn@ },
            Action::SyncSubscriptions { conn } => ActionView::SyncSubscriptions { conn: conn@ },
            Action::FetchHotlist { conn } => ActionView::FetchHotlist { conn: conn@ },
            Action::RefreshBuffer { conn, raw_id } => ActionView::RefreshBuffer { conn: conn@, raw_id: raw_id@ },
            Action::FetchLines { conn, raw_id, count } => ActionView::FetchLines { conn: conn@, raw_id: raw_id@, count: *count },
            Action::FetchLinesBefore { conn, raw_id, timestamp } => ActionView::FetchLinesBefore { conn: conn@, raw_id: raw_id@, timestamp: timestamp@ },
            Action::FetchNicks { conn, raw_id } => ActionView::FetchNicks { conn: conn@, raw_id: raw_id@ },
            Action::MarkRead { conn, raw_id } => ActionView::MarkRead { conn: conn@, raw_id: raw_id@ },
            Action::SendMessage { conn, raw_id, text } => ActionView::SendMessage { conn: conn@, raw_id: raw_id@, text: text@ },
            Action::Notify { title, body } => ActionView::Notify { title: title@, body: body@ },
            Action::GatherSystemInfo { buffer_id } => ActionView::GatherSystemInfo { buffer_id: buffer_id@ },
            Action::NowPlaying { buffer_id, custom } => ActionView::NowPlaying { buffer_id: buffer_id@, custom: opt_text(*custom) },
        }
    }
}

/// The state of the program.
pub struct WeeChatApp {
    pub connections: Vec<ConnectionHandle>,
    pub profiles: Vec<ConnectionProfile>,
    pub show_connection_log: bool,
    pub connection_log_unread: bool,
    pub selected_conn_log: Option<String>,
    pub session_passwords: TextMap<String>,
    pub buffers: Vec<Buffer>,
    /// Where each buffer stands in `buffers`. Kept in step with it.
    pub buffer_idx: StringHashMap<usize>,
    pub selected_buffer_id: Option<String>,
    pub last_chat_buffer_name: Option<String>,
    pub input_text: String,
    pub show_hidden_buffers: bool,
    pub show_filtered_lines: bool,
    pub show_inline_images: bool,
    pub show_link_previews: bool,
    pub auto_reconnect: bool,
    pub completion: Option<CompletionState>,
    pub mention_completion: Option<MentionCompletionState>,
    pub selected_mentions: Vec<SelectedMention>,
    pub command_completion: Option<CommandCompletionState>,
    pub command_completion_pending: Option<CommandCompletionRequest>,
    pub command_completion_request_seq: u64,
    pub command_history: VecDeque<String>,
    pub history_index: Option<usize>,
    pub focus_input: bool,
    pub reply_target: Option<ReplyTarget>,
    pub profile_card: Option<UserProfileCard>,
    pub open_thread_buffer_id: Option<String>,
    pub open_thread_snapshot: Option<Buffer>,
    pub thread_input_text: String,
    pub focus_thread_input: bool,
    pub pending_buffer_switch: Option<String>,
    pub buffer_order: Vec<String>,
    /// Relay ids of the buffers read in this run. The relay gives out new ids
    /// after every restart.
    pub cleared_buffer_ids: TextSet,
    /// Stable names of the buffers that the user has read. They survive a
    /// restart of the relay and hold back the unread counts that it restores,
    /// until a new line arrives.
    pub cleared_buffer_names: TextSet,
    pub read_markers: TextMap<SavedReadMarker>,
    pub muted_buffer_names: TextSet,
    /// When each buffer last raised a notification.
    pub last_notif_at: TextMap<u64>,
    pub request_attention: bool,
    pub selected_view_since: Option<u64>,
    pub loading_more_buffer_id: Option<String>,
    /// The largest snapshot asked for, for each buffer.
    pub history_request_counts: TextMap<usize>,
    /// Buffers that have no older lines.
    pub history_exhausted_buffer_ids: TextSet,
    /// The first visible line and the line count before a page was added.
    pub history_scroll_anchors: TextMap<(String, usize)>,
    /// Buffers whose upper edge asks for more when it is reached.
    pub history_top_armed_buffer_ids: TextSet,
    pub force_scroll_to_bottom_buffer_id: Option<String>,
    pub collapsed_servers: TextSet,
    pub file_share_uploading: bool,
    pub file_share_status: Option<String>,
    pub file_share_target_buffer_id: Option<String>,
    pub file_share_expected_filename: Option<String>,
    pub file_share_started_at: Option<u64>,
    pub file_share_error: Option<String>,
    pub file_share_duration: String,
    pub pending_redaction: Option<RedactionTarget>,
    pub pending_redaction_error: Option<String>,
    /// What is to be done outside, in order.
    pub outbox: Vec<Action>,
}

pub ghost struct AppView {
    pub connections: Seq<ConnectionView>,
    pub profiles: Seq<ConnectionProfileView>,
    pub show_connection_log: bool,
    pub connection_log_unread: bool,
    pub selected_conn_log: Option<Seq<char>>,
    pub session_passwords: Map<Seq<char>, Seq<char>>,
    pub buffers: Seq<BufferView>,
    pub selected_buffer_id: Option<Seq<char>>,
    pub last_chat_buffer_name: Option<Seq<char>>,
    pub input_text: Seq<char>,
    pub show_hidden_buffers: bool,
    pub show_filtered_lines: bool,
    pub show_inline_images: bool,
    pub show_link_previews: bool,
    pub auto_reconnect: bool,
    pub completion: Option<CompletionView>,
    pub mention_completion: Option<MentionCompletionView>,
    pub selected_mentions: Seq<SelectedMentionView>,
    pub command_completion: Option<CommandCompletionView>,
    pub command_completion_pending: Option<CompletionRequestView>,
    pub command_completion_request_seq: u64,
    pub command_history: Seq<Seq<char>>,
    pub history_index: Option<usize>,
    pub focus_input: bool,
    pub reply_target: Option<TargetView>,
    pub profile_card: Option<CardView>,
    pub open_thread_buffer_id: Option<Seq<char>>,
    pub open_thread_snapshot: Option<BufferView>,
    pub thread_input_text: Seq<char>,
    pub focus_thread_input: bool,
    pub pending_buffer_switch: Option<Seq<char>>,
    pub buffer_order: Seq<Seq<char>>,
    pub cleared_buffer_ids: Set<Seq<char>>,
    pub cleared_buffer_names: Set<Seq<char>>,
    pub read_markers: Map<Seq<char>, MarkerView>,
    pub muted_buffer_names: Set<Seq<char>>,
    pub last_notif_at: Map<Seq<char>, u64>,
    pub request_attention: bool,
    pub selected_view_since: Option<u64>,
    pub loading_more_buffer_id: Option<Seq<char>>,
    pub history_request_counts: Map<Seq<char>, usize>,
    pub history_exhausted_buffer_ids: Set<Seq<char>>,
    pub history_scroll_anchors: Map<Seq<char>, (Seq<char>, usize)>,
    pub history_top_armed_buffer_ids: Set<Seq<char>>,
    pub force_scroll_to_bottom_buffer_id: Option<Seq<char>>,
    pub collapsed_servers: Set<Seq<char>>,
    pub file_share_uploading: bool,
    pub file_share_status: Option<Seq<char>>,
    pub file_share_target_buffer_id: Option<Seq<char>>,
    pub file_share_expected_filename: Option<Seq<char>>,
    pub file_share_started_at: Option<u64>,
    pub file_share_error: Option<Seq<char>>,
    pub file_share_duration: Seq<char>,
    pub pending_redaction: Option<TargetView>,
    pub pending_redaction_error: Option<Seq<char>>,
    pub outbox: Seq<ActionView>,
}

impl View for WeeChatApp {
    type V = AppView;

    open spec fn view(&self) -> AppView {
        AppView {
            connections: views(self.connections@),
            profiles: views(self.profiles@),
            show_connection_log: self.show_connection_log,
            connection_log_unread: self.connection_log_unread,
            selected_conn_log: opt_text(self.selected_conn_log),
            session_passwords: self.session_passwords@,
            buffers: views(self.buffers@),
            selected_buffer_id: opt_text(self.selected_buffer_id),
            last_chat_buffer_name: opt_text(self.last_chat_buffer_name),
            input_text: self.input_text@,
            show_hidden_buffers: self.show_hidden_buffers,
            show_filtered_lines: self.show_filtered_lines,
            show_inline_images: self.show_inline_images,
            show_link_previews: self.show_link_previews,
            auto_reconnect: self.auto_reconnect,
            completion: opt_view(self.completion),
            mention_completion: opt_view(self.mention_completion),
            selected_mentions: views(self.selected_mentions@),
            command_completion: opt_view(self.command_completion),
            command_completion_pending: opt_view(self.command_completion_pending),
            command_completion_request_seq: self.command_completion_request_seq,
            command_history: texts(self.command_history@),
            history_index: self.history_index,
            focus_input: self.focus_input,
            reply_target: opt_view(self.reply_target),
            profile_card: opt_view(self.profile_card),
            open_thread_buffer_id: opt_text(self.open_thread_buffer_id),
            open_thread_snapshot: opt_view(self.open_thread_snapshot),
            thread_input_text: self.thread_input_text@,
            focus_thread_input: self.focus_thread_input,
            pending_buffer_switch: opt_text(self.pending_buffer_switch),
            buffer_order: texts(self.buffer_order@),
            cleared_buffer_ids: self.cleared_buffer_ids@,
            cleared_buffer_names: self.cleared_buffer_names@,
            read_markers: self.read_markers@,
            muted_buffer_names: self.muted_buffer_names@,
            last_notif_at: self.last_notif_at@,
            request_attention: self.request_attention,
            selected_view_since: self.selected_view_since,
            loading_more_buffer_id: opt_text(self.loading_more_buffer_id),
            history_request_counts: self.history_request_counts@,
            history_exhausted_buffer_ids: self.history_exhausted_buffer_ids@,
            history_scroll_anchors: self.history_scroll_anchors@,
            history_top_armed_buffer_ids: self.history_top_armed_buffer_ids@,
            force_scroll_to_bottom_buffer_id: opt_text(self.force_scroll_to_bottom_buffer_id),
            collapsed_servers: self.collapsed_servers@,
            file_share_uploading: self.file_share_uploading,
            file_share_status: opt_text(self.file_share_status),
            file_share_target_buffer_id: opt_text(self.file_share_target_buffer_id),
            file_share_expected_filename: opt_text(self.file_share_expected_filename),
            file_share_started_at: self.file_share_started_at,
            file_share_error: opt_text(self.file_share_error),
            file_share_duration: self.file_share_duration@,
            pending_redaction: opt_view(self.pending_redaction),
            pending_redaction_error: opt_text(self.pending_redaction_error),
            outbox: views(self.outbox@),
        }
    }
}

// ---------------------------------------------------------------------------
// Buffers by id
// ---------------------------------------------------------------------------

/// Where the buffer with an id stands.
pub open spec fn buffer_place(buffers: Seq<BufferView>, id: Seq<char>) -> Option<int> {
    last_index(buffers, |b: BufferView| b.id == id)
}

/// The buffer with an id.
pub open spec fn buffer_of(buffers: Seq<BufferView>, id: Seq<char>) -> Option<BufferView> {
    match buffer_place(buffers, id) {
        Some(i) => Some(buffers[i]),
        None => None,
    }
}

/// The places of the buffers by id.
#[verifier::opaque]
pub open spec fn index_map(buffers: Seq<BufferView>) -> Map<Seq<char>, usize> {
    Map::new(
        |id: Seq<char>| buffer_place(buffers, id) is Some,
        |id: Seq<char>| buffer_place(buffers, id)->0 as usize,
    )
}

proof fn lemma_index_map_push(buffers: Seq<BufferView>, b: BufferView)
    requires
        buffers.len() < usize::MAX,
    ensures
        index_map(buffers.push(b)) == index_map(buffers).insert(b.id, buffers.len() as usize),
{
    reveal(index_map);
    assert forall|id: Seq<char>| #[trigger]
        buffer_place(buffers.push(b), id) == (if id == b.id {
            Some(buffers.len() as int)
        } else {
            buffer_place(buffers, id)
        }) by {
        assert(buffers.push(b).drop_last() =~= buffers);
    }
    assert(index_map(buffers.push(b)) =~= index_map(buffers).insert(b.id, buffers.len() as usize));
}

/// Two lists with the same ids have their buffers at the same places.
pub proof fn lemma_same_ids(a: Seq<BufferView>, b: Seq<BufferView>)
    requires
        a.len() == b.len(),
        forall|i: int| 0 <= i < a.len() ==> (#[trigger] a[i]).id == (#[trigger] b[i]).id,
    ensures
        index_map(a) == index_map(b),
        forall|id: Seq<char>| #[trigger] buffer_place(a, id) == buffer_place(b, id),
{
    reveal(index_map);
    assert forall|id: Seq<char>| #[trigger] buffer_place(a, id) == buffer_place(b, id) by {
        let p = |b: BufferView| b.id == id;
        lemma_last_index(a, p);
        lemma_last_index(b, p);
        match last_index(a, p) {
            Some(i) => {
                assert(p(b[i]));
                assert forall|j: int| i < j < b.len() implies !p(#[trigger] b[j]) by {
                    assert(!p(a[j]));
                }
                lemma_last_is(b, p, i);
            },
            None => {
                match last_index(b, p) {
                    Some(j) => {
                        assert(!p(a[j]));
                    },
                    None => {},
                }
            },
        }
    }
    assert(index_map(a) =~= index_map(b));
}

/// Changing a buffer without changing its id leaves the places as they are.
pub proof fn lemma_touched(before: Seq<Buffer>, after: Seq<Buffer>, i: int)
    requires
        0 <= i < before.len(),
        after.len() == before.len(),
        forall|j: int| 0 <= j < before.len() && j != i ==> after[j] == before[j],
        after[i]@.id == before[i]@.id,
    ensures
        views(after) == views(before).update(i, after[i]@),
        index_map(views(after)) == index_map(views(before)),
{
    assert(views(after) =~= views(before).update(i, after[i]@));
    lemma_same_ids(views(after), views(before));
}

/// The connection that a buffer belongs to, and the id that it has there.
pub open spec fn owner_of(connections: Seq<ConnectionView>, buffer_id: Seq<char>) -> Option<
    (Seq<char>, Seq<char>),
> {
    match first_index(
        connections,
        |c: ConnectionView| strip_prefix(buffer_id, c.prefix + "/"@) is Some,
    ) {
        Some(i) => Some(
            (
                connections[i].prefix,
                strip_prefix(buffer_id, connections[i].prefix + "/"@)->0,
            ),
        ),
        None => None,
    }
}

impl AppView {
    pub open spec fn doing(self, action: ActionView) -> AppView {
        AppView { outbox: self.outbox.push(action), ..self }
    }

    pub open spec fn with_buffer(self, i: int, b: BufferView) -> AppView {
        AppView { buffers: self.buffers.update(i, b), ..self }
    }

    /// The state with the buffer of an id changed, where there is one.
    pub open spec fn changing(self, id: Seq<char>, f: spec_fn(BufferView) -> BufferView) -> AppView {
        match buffer_place(self.buffers, id) {
            Some(i) => self.with_buffer(i, f(self.buffers[i])),
            None => self,
        }
    }

    pub open spec fn owner(self, buffer_id: Seq<char>) -> Option<(Seq<char>, Seq<char>)> {
        owner_of(self.connections, buffer_id)
    }

    /// Whether a connection with a prefix runs.
    pub open spec fn has_connection(self, prefix: Seq<char>) -> bool {
        connection_place(self.connections, prefix) is Some
    }
}

pub open spec fn connection_place(connections: Seq<ConnectionView>, prefix: Seq<char>) -> Option<
    int,
> {
    first_index(connections, |c: ConnectionView| c.prefix == prefix)
}

impl WeeChatApp {
    /// The places of the buffers are in step with the buffers.
    pub open spec fn wf(&self) -> bool {
        self.buffer_idx@ == index_map(self@.buffers)
    }

    /// Notes anew where each buffer stands. To be called after every change to
    /// the list of buffers.
    pub fn rebuild_buffer_idx(&mut self)
        ensures
            final(self).wf(),
            final(self)@ == old(self)@,
            final(self).buffers@ == old(self).buffers@,
    {
        self.buffer_idx = StringHashMap::new();
        let ghost all = self@.buffers;
        let mut i: usize = 0;
        assert(all.take(0) =~= Seq::empty());
        proof {
            reveal(index_map);
            assert(self.buffer_idx@ =~= index_map(all.take(0)));
        }
        while i < self.buffers.len()
            invariant
                i <= self.buffers@.len(),
                all == views(self.buffers@),
                self.buffer_idx@ == index_map(all.take(i as int)),
                self@ == old(self)@,
                self.buffers@ == old(self).buffers@,
            decreases self.buffers@.len() - i,
        {
            let n: usize = self.buffers.len();
            proof {
                lemma_index_map_push(all.take(i as int), all[i as int]);
                assert(all.take(i + 1) =~= all.take(i as int).push(all[i as int]));
            }
            let id = self.buffers[i].id.clone();
            self.buffer_idx.insert(id, i);
            i = i + 1;
        }
        assert(all.take(i as int) =~= all);
    }

    /// Takes the buffers out, to be put back.
    pub(crate) fn take_buffers(&mut self) -> (list: Vec<Buffer>)
        ensures
            list@ == old(self).buffers@,
            final(self)@ == (AppView { buffers: Seq::empty(), ..old(self)@ }),
    {
        let ghost start = self@;
        let mut list: Vec<Buffer> = Vec::new();
        core::mem::swap(&mut list, &mut self.buffers);
        assert(views(self.buffers@) =~= Seq::empty());
        assert(self@.profiles == start.profiles);
        list
    }

    pub(crate) fn put_buffers(&mut self, list: Vec<Buffer>)
        ensures
            final(self).wf(),
            final(self)@ == (AppView { buffers: views(list@), ..old(self)@ }),
            final(self).buffers@ == list@,
    {
        let ghost start = self@;
        self.buffers = list;
        assert(self@.profiles == start.profiles);
        self.rebuild_buffer_idx();
    }

    /// Where the buffer with an id stands.
    pub fn buffer_idx_of(&self, id: &str) -> (at: Option<usize>)
        requires
            self.wf(),
        ensures
            crate::text::opt_index(at) == buffer_place(self@.buffers, id@),
            at is Some ==> at->0 < self.buffers@.len() && self.buffers@[at->0 as int]@.id == id@,
    {
        let n: usize = self.buffers.len();
        proof {
            reveal(index_map);
            lemma_last_index(self@.buffers, |b: BufferView| b.id == id@);
        }
        match self.buffer_idx.get(id) {
            Some(i) => {
                assert(self@.buffers[*i as int] == self.buffers@[*i as int]@);
                Some(*i)
            },
            None => None,
        }
    }

    pub fn buffer_by_id(&self, id: &str) -> (buffer: Option<&Buffer>)
        requires
            self.wf(),
        ensures
            match buffer {
                Some(b) => buffer_of(self@.buffers, id@) == Some(b@),
                None => buffer_of(self@.buffers, id@) is None,
            },
    {
        match self.buffer_idx_of(id) {
            Some(i) => {
                assert(self@.buffers[i as int] == self.buffers@[i as int]@);
                Some(&self.buffers[i])
            },
            None => None,
        }
    }

    /// The prefix of the connection that a buffer belongs to, and the id that
    /// the buffer has there.
    pub fn client_for_buffer(&self, buffer_id: &str) -> (owner: Option<(String, String)>)
        ensures
            crate::text::opt_pair(owner) == self@.owner(buffer_id@),
    {
        let ghost p = |c: ConnectionView| strip_prefix(buffer_id@, c.prefix + "/"@) is Some;
        let mut i: usize = 0;
        while i < self.connections.len()
            invariant
                i <= self.connections@.len(),
                p == (|c: ConnectionView| strip_prefix(buffer_id@, c.prefix + "/"@) is Some),
                first_index(self@.connections, p) == crate::seqs::first_from(
                    self@.connections,
                    p,
                    i as int,
                ),
            decreases self.connections@.len() - i,
        {
            assert(self@.connections[i as int] == self.connections@[i as int]@);
            let head = join2(self.connections[i].prefix.as_str(), "/");
            match str_strip_prefix(buffer_id, head.as_str()) {
                Some(raw) => {
                    return Some((self.connections[i].prefix.clone(), raw));
                },
                None => {},
            }
            i = i + 1;
        }
        None
    }

    /// Where the connection with a prefix stands.
    pub fn connection_idx_of(&self, prefix: &str) -> (at: Option<usize>)
        ensures
            crate::text::opt_index(at) == connection_place(self@.connections, prefix@),
            at is Some ==> at->0 < self.connections@.len() && self.connections@[at->0 as int]@.prefix
                == prefix@,
    {
        let found = |c: &ConnectionHandle| -> (r: bool)
            ensures
                r == (c@.prefix == prefix@),
            { same_text(c.prefix.as_str(), prefix) };
        let at = position_from(
            self.connections.as_slice(),
            0,
            found,
            Ghost(|c: ConnectionView| c.prefix == prefix@),
        );
        proof {
            crate::seqs::lemma_first_from(
                self@.connections,
                |c: ConnectionView| c.prefix == prefix@,
                0,
            );
            if let Some(i) = at {
                assert(self@.connections[i as int] == self.connections@[i as int]@);
            }
        }
        at
    }

    /// Leaves an action to be done.
    pub fn act(&mut self, action: Action)
        ensures
            final(self)@ == old(self)@.doing(action@),
            old(self).wf() ==> final(self).wf(),
            final(self).buffers@ == old(self).buffers@,
    {
        let ghost start = self@;
        let ghost before = self.outbox@;
        self.outbox.push(action);
        assert(views(self.outbox@) =~= views(before).push(action@));
        assert(self@.profiles == start.profiles);
    }

    /// Takes everything that is to be done.
    pub fn take_actions(&mut self) -> (actions: Vec<Action>)
        ensures
            views(actions@) == old(self)@.outbox,
            final(self)@ == (AppView { outbox: Seq::empty(), ..old(self)@ }),
            old(self).wf() ==> final(self).wf(),
    {
        let mut actions: Vec<Action> = Vec::new();
        core::mem::swap(&mut actions, &mut self.outbox);
        assert(views(self.outbox@) =~= Seq::empty());
        actions
    }
}

} // verus!
