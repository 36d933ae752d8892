//! What the user does with buffers: selecting, reading, opening threads, asking
//! for history.
use vstd::prelude::*;
use crate::connection::{BackendType, ConnectionHandle, ConnectionView};
use crate::dates::{format_time, formatted_time, HISTORY_TIME_FORMAT};
use crate::history::{next_history_request_count, next_request};
use crate::markers::{marker_of, MarkerView, SavedReadMarker};
use crate::models::{Buffer, BufferActivity, BufferView};
use crate::rooms::{
    composed_lines, composed_upgrade_history, is_restorable, is_restorable_chat_buffer,
};
use crate::seqs::{first_index, views};
use crate::state::{
    buffer_of, buffer_place, connection_place, lemma_touched, Action, ActionView, AppView, Clock,
    WeeChatApp, INITIAL_LINES, MAX_LOG_ENTRIES,
};
use crate::text::{clone_opt, join2, join3, opt_is, opt_text, same_text, starts_with, texts};

verus! {

// ---------------------------------------------------------------------------
// Logs of connections
// ---------------------------------------------------------------------------

/// An entry of a log.
pub open spec fn log_entry(stamp: Seq<char>, message: Seq<char>) -> Seq<char> {
    "["@ + stamp + "]  "@ + message
}

impl ConnectionView {
    pub open spec fn with_entry(self, stamp: Seq<char>, message: Seq<char>) -> ConnectionView {
        ConnectionView { connection_log: self.connection_log.push(log_entry(stamp, message)), ..self }
    }

    /// The connection with its log cut by one entry where it is too long.
    pub open spec fn trimmed(self) -> ConnectionView {
        ConnectionView {
            connection_log: if self.connection_log.len() > MAX_LOG_ENTRIES {
                self.connection_log.skip(1)
            } else {
                self.connection_log
            },
            ..self
        }
    }
}

impl ConnectionHandle {
    pub fn push_log(&mut self, stamp: &str, message: &str)
        ensures
            final(self)@ == old(self)@.with_entry(stamp@, message@),
    {
        let ghost before = self.connection_log@;
        let head = join3("[", stamp, "]  ");
        self.connection_log.push_back(join2(head.as_str(), message));
        assert(texts(self.connection_log@) =~= texts(before).push(log_entry(stamp@, message@)));
    }

    pub fn trim_log(&mut self)
        ensures
            final(self)@ == old(self)@.trimmed(),
    {
        let ghost before = self.connection_log@;
        assert(texts(before).len() == before.len());
        if self.connection_log.len() > MAX_LOG_ENTRIES {
            self.connection_log.pop_front();
            assert(texts(self.connection_log@) =~= texts(before).skip(1));
        }
    }
}

pub proof fn lemma_connection_touched(
    before: Seq<ConnectionHandle>,
    after: Seq<ConnectionHandle>,
    i: int,
)
    requires
        0 <= i < before.len(),
        after.len() == before.len(),
        forall|j: int| 0 <= j < before.len() && j != i ==> after[j] == before[j],
    ensures
        views(after) == views(before).update(i, after[i]@),
{
    assert(views(after) =~= views(before).update(i, after[i]@));
}

impl AppView {
    /// The state with the connection of a prefix changed, where there is one.
    pub open spec fn changing_connection(
        self,
        prefix: Seq<char>,
        f: spec_fn(ConnectionView) -> ConnectionView,
    ) -> AppView {
        match connection_place(self.connections, prefix) {
            Some(i) => AppView {
                connections: self.connections.update(i, f(self.connections[i])),
                ..self
            },
            None => self,
        }
    }

    /// The state after something new stands in a log that may not be on view.
    pub open spec fn log_touched(self) -> AppView {
        AppView {
            connection_log_unread: if self.show_connection_log {
                self.connection_log_unread
            } else {
                true
            },
            ..self
        }
    }

    pub open spec fn logged(self, prefix: Seq<char>, stamp: Seq<char>, message: Seq<char>) -> AppView {
        self.changing_connection(
            prefix,
            |c: ConnectionView| c.with_entry(stamp, message).trimmed(),
        ).log_touched()
    }
}

impl WeeChatApp {
    pub fn touch_log(&mut self)
        ensures
            final(self)@ == old(self)@.log_touched(),
            old(self).wf() ==> final(self).wf(),
            final(self).buffers@ == old(self).buffers@,
    {
        let ghost start = self@;
        if !self.show_connection_log {
            self.connection_log_unread = true;
        }
        assert(self@.profiles == start.profiles);
    }

    /// Notes something in the log of a connection.
    pub fn log_conn_for(&mut self, conn_prefix: &str, message: &str, clock: &Clock)
        ensures
            final(self)@ == old(self)@.logged(conn_prefix@, clock.hms@, message@),
            old(self).wf() ==> final(self).wf(),
            final(self).buffers@ == old(self).buffers@,
    {
        match self.connection_idx_of(conn_prefix) {
            Some(i) => {
                let ghost before = self.connections@;
                let ghost state = self@;
                self.connections[i].push_log(clock.hms.as_str(), message);
                self.connections[i].trim_log();
                proof {
                    lemma_connection_touched(before, self.connections@, i as int);
                    assert(state.connections[i as int] == before[i as int]@);
                }
            },
            None => {},
        }
        self.touch_log();
    }
}

/// The log of a connection stays within its limit.
pub proof fn log_stays_bounded(
    state: AppView,
    prefix: Seq<char>,
    stamp: Seq<char>,
    message: Seq<char>,
    i: int,
)
    requires
        0 <= i < state.connections.len(),
        state.connections[i].connection_log.len() <= MAX_LOG_ENTRIES,
    ensures
        state.logged(prefix, stamp, message).connections[i].connection_log.len()
            <= MAX_LOG_ENTRIES,
{
    crate::seqs::lemma_first_from(
        state.connections,
        |c: ConnectionView| c.prefix == prefix,
        0,
    );
}

// ---------------------------------------------------------------------------
// Read markers
// ---------------------------------------------------------------------------

/// Saved markers with one advanced.
pub open spec fn markers_advanced(
    markers: Map<Seq<char>, MarkerView>,
    name: Seq<char>,
    marker: MarkerView,
) -> Map<Seq<char>, MarkerView> {
    markers.insert(
        name,
        if markers.contains_key(name) {
            markers[name].advanced(marker)
        } else {
            marker
        },
    )
}

impl AppView {
    /// The state with the marker of a buffer advanced to its last line.
    pub open spec fn marker_remembered(self, id: Seq<char>) -> AppView {
        match buffer_of(self.buffers, id) {
            Some(b) if b.messages.len() > 0 => AppView {
                read_markers: markers_advanced(
                    self.read_markers,
                    b.full_name,
                    marker_of(b.messages.last()),
                ),
                ..self
            },
            _ => self,
        }
    }

    /// The state with a buffer noted as read.
    pub open spec fn activity_cleared(self, id: Seq<char>) -> AppView {
        AppView {
            cleared_buffer_ids: self.cleared_buffer_ids.insert(id),
            cleared_buffer_names: match buffer_of(self.buffers, id) {
                Some(b) => self.cleared_buffer_names.insert(b.full_name),
                None => self.cleared_buffer_names,
            },
            ..self
        }
    }
}

impl WeeChatApp {
    /// Moves a saved marker forward, never back.
    pub fn advance_read_marker(&mut self, full_name: String, marker: SavedReadMarker)
        ensures
            final(self)@ == (AppView {
                read_markers: markers_advanced(old(self)@.read_markers, full_name@, marker@),
                ..old(self)@
            }),
            old(self).wf() ==> final(self).wf(),
            final(self).buffers@ == old(self).buffers@,
    {
        let ghost start = self@;
        let next = match self.read_markers.get(full_name.as_str()) {
            Some(saved) => saved.advanced_with(marker),
            None => marker,
        };
        self.read_markers.insert(full_name, next);
        assert(self@.profiles == start.profiles);
    }

    /// Advances the marker of a buffer to its last line.
    pub fn remember_buffer_read_marker(&mut self, id: &str)
        requires
            old(self).wf(),
        ensures
            final(self).wf(),
            final(self)@ == old(self)@.marker_remembered(id@),
            final(self).buffers@ == old(self).buffers@,
    {
        match self.buffer_idx_of(id) {
            Some(i) => {
                let n: usize = self.buffers[i].messages.len();
                assert(self@.buffers[i as int] == self.buffers@[i as int]@);
                assert(self@.buffers[i as int].messages.len() == n);
                if n > 0 {
                    let full_name = self.buffers[i].full_name.clone();
                    let marker = SavedReadMarker::from_line(&self.buffers[i].messages[n - 1]);
                    assert(self@.buffers[i as int].messages.last()
                        == self.buffers@[i as int].messages@[n - 1]@);
                    self.advance_read_marker(full_name, marker);
                }
            },
            None => {},
        }
    }

    /// Notes a buffer as read, for this run by its id and for later ones by its
    /// name.
    pub fn clear_buffer_activity_persistently(&mut self, id: &str)
        requires
            old(self).wf(),
        ensures
            final(self).wf(),
            final(self)@ == old(self)@.activity_cleared(id@),
            final(self).buffers@ == old(self).buffers@,
    {
        let ghost start = self@;
        self.cleared_buffer_ids.insert(id.to_owned());
        match self.buffer_idx_of(id) {
            Some(i) => {
                assert(self@.buffers[i as int] == self.buffers@[i as int]@);
                let full_name = self.buffers[i].full_name.clone();
                self.cleared_buffer_names.insert(full_name);
            },
            None => {},
        }
        assert(self@.profiles == start.profiles);
    }
}

/// No marker moves back in time when a buffer's marker is remembered.
pub proof fn remembering_never_moves_a_marker_back(state: AppView, id: Seq<char>, name: Seq<char>)
    requires
        state.read_markers.contains_key(name),
    ensures
        state.marker_remembered(id).read_markers.contains_key(name),
        state.marker_remembered(id).read_markers[name].timestamp_nanos
            >= state.read_markers[name].timestamp_nanos,
{
}

// ---------------------------------------------------------------------------
// Selecting a buffer
// ---------------------------------------------------------------------------

/// A buffer that the user has just come to.
pub open spec fn visited(b: BufferView) -> BufferView {
    BufferView {
        activity: BufferActivity::Idle,
        unread_count: 0,
        visit_start_marker_id: b.last_read_id,
        ..b
    }
}

fn visit(buffer: &mut Buffer)
    ensures
        final(buffer)@ == visited(old(buffer)@),
{
    buffer.activity = BufferActivity::Idle;
    buffer.unread_count = 0;
    buffer.visit_start_marker_id = clone_opt(&buffer.last_read_id);
}

impl AppView {
    pub open spec fn mark_read(self, id: Seq<char>) -> AppView {
        match self.owner(id) {
            Some((conn, raw_id)) => self.doing(ActionView::MarkRead { conn, raw_id }),
            None => self,
        }
    }

    /// The state after the user left a buffer.
    pub open spec fn left(self, id: Seq<char>) -> AppView {
        AppView {
            reply_target: None,
            mention_completion: None,
            selected_mentions: Seq::empty(),
            profile_card: None,
            ..self
        }.marker_remembered(id).mark_read(id)
    }

    /// The state with everything asked for that a buffer on view needs.
    pub open spec fn refreshed(self, id: Seq<char>, with_nicks: bool) -> AppView {
        match self.owner(id) {
            Some((conn, raw_id)) => {
                let asked = self.doing(ActionView::RefreshBuffer { conn, raw_id }).doing(
                    ActionView::FetchLines { conn, raw_id, count: INITIAL_LINES },
                );
                let nicks = if with_nicks {
                    asked.doing(ActionView::FetchNicks { conn, raw_id })
                } else {
                    asked
                };
                nicks.doing(ActionView::MarkRead { conn, raw_id })
            },
            None => self,
        }
    }

    /// The state with a buffer noted as the one on view.
    pub open spec fn on_view(self, id: Seq<char>, ticks: u64) -> AppView {
        AppView {
            selected_buffer_id: Some(id),
            last_chat_buffer_name: match buffer_of(self.buffers, id) {
                Some(b) if is_restorable(b) => Some(b.full_name),
                _ => self.last_chat_buffer_name,
            },
            focus_input: true,
            selected_view_since: Some(ticks),
            ..self
        }.activity_cleared(id)
    }

    /// The state with a buffer visited and its contents asked for.
    pub open spec fn entered(self, id: Seq<char>) -> AppView {
        match buffer_place(self.buffers, id) {
            Some(i) => self.with_buffer(i, visited(self.buffers[i])).refreshed(
                id,
                self.buffers[i].has_nicklist,
            ),
            None => self,
        }
    }

    /// The state after the user selected a buffer. A thread cannot be selected.
    pub open spec fn selecting(self, id: Seq<char>, ticks: u64) -> AppView {
        if buffer_of(self.buffers, id) is Some && buffer_of(self.buffers, id)->0.is_thread() {
            self
        } else {
            let after = match self.selected_buffer_id {
                Some(prev) if prev != id => self.left(prev),
                _ => self,
            };
            after.on_view(id, ticks).entered(id).marker_remembered(id)
        }
    }
}

impl WeeChatApp {
    fn drop_drafts(&mut self)
        ensures
            final(self)@ == (AppView {
                reply_target: None,
                mention_completion: None,
                selected_mentions: Seq::empty(),
                profile_card: None,
                ..old(self)@
            }),
            old(self).wf() ==> final(self).wf(),
            final(self).buffers@ == old(self).buffers@,
    {
        let ghost before = self@;
        self.reply_target = None;
        self.mention_completion = None;
        self.selected_mentions = Vec::new();
        assert(views(self.selected_mentions@) =~= Seq::empty());
        self.profile_card = None;
        assert(self@.buffers == before.buffers);
    }

    fn leave_buffer(&mut self, id: &str)
        requires
            old(self).wf(),
        ensures
            final(self).wf(),
            final(self)@ == old(self)@.left(id@),
            final(self).buffers@ == old(self).buffers@,
    {
        self.drop_drafts();
        self.remember_buffer_read_marker(id);
        match self.client_for_buffer(id) {
            Some((conn, raw_id)) => {
                self.act(Action::MarkRead { conn, raw_id });
            },
            None => {},
        }
    }

    fn refresh_selected(&mut self, id: &str, with_nicks: bool)
        ensures
            final(self)@ == old(self)@.refreshed(id@, with_nicks),
            old(self).wf() ==> final(self).wf(),
            final(self).buffers@ == old(self).buffers@,
    {
        match self.client_for_buffer(id) {
            Some((conn, raw_id)) => {
                self.act(Action::RefreshBuffer { conn: conn.clone(), raw_id: raw_id.clone() });
                self.act(
                    Action::FetchLines {
                        conn: conn.clone(),
                        raw_id: raw_id.clone(),
                        count: INITIAL_LINES,
                    },
                );
                if with_nicks {
                    self.act(Action::FetchNicks { conn: conn.clone(), raw_id: raw_id.clone() });
                }
                self.act(Action::MarkRead { conn, raw_id });
            },
            None => {},
        }
    }

    fn name_to_return_to(&self, id: &str) -> (name: Option<String>)
        requires
            self.wf(),
        ensures
            opt_text(name) == (match buffer_of(self@.buffers, id@) {
                Some(b) if is_restorable(b) => Some(b.full_name),
                _ => self@.last_chat_buffer_name,
            }),
    {
        match self.buffer_by_id(id) {
            Some(b) => if is_restorable_chat_buffer(b) {
                Some(b.full_name.clone())
            } else {
                clone_opt(&self.last_chat_buffer_name)
            },
            None => clone_opt(&self.last_chat_buffer_name),
        }
    }

    fn set_view(&mut self, id: &str, name: Option<String>, ticks: u64)
        ensures
            final(self)@ == (AppView {
                selected_buffer_id: Some(id@),
                last_chat_buffer_name: opt_text(name),
                focus_input: true,
                selected_view_since: Some(ticks),
                ..old(self)@
            }),
            old(self).wf() ==> final(self).wf(),
            final(self).buffers@ == old(self).buffers@,
    {
        let ghost before = self@;
        self.selected_buffer_id = Some(id.to_owned());
        self.last_chat_buffer_name = name;
        self.focus_input = true;
        self.selected_view_since = Some(ticks);
        assert(self@.buffers == before.buffers);
    }

    fn put_on_view(&mut self, id: &str, ticks: u64)
        requires
            old(self).wf(),
        ensures
            final(self).wf(),
            final(self)@ == old(self)@.on_view(id@, ticks),
            final(self).buffers@ == old(self).buffers@,
    {
        let name = self.name_to_return_to(id);
        self.set_view(id, name, ticks);
        self.clear_buffer_activity_persistently(id);
    }

    fn enter_buffer(&mut self, id: &str)
        requires
            old(self).wf(),
        ensures
            final(self).wf(),
            final(self)@ == old(self)@.entered(id@),
    {
        match self.buffer_idx_of(id) {
            Some(i) => {
                let ghost before = self.buffers@;
                let ghost state = self@;
                assert(state.buffers[i as int] == before[i as int]@);
                visit(&mut self.buffers[i]);
                proof {
                    lemma_touched(before, self.buffers@, i as int);
                }
                let with_nicks = self.buffers[i].has_nicklist;
                self.refresh_selected(id, with_nicks);
            },
            None => {},
        }
    }

    /// Puts a buffer on view.
    pub fn select_buffer(&mut self, id: String, clock: &Clock)
        requires
            old(self).wf(),
        ensures
            final(self).wf(),
            final(self)@ == old(self)@.selecting(id@, clock.ticks),
    {
        match self.buffer_by_id(id.as_str()) {
            Some(buffer) => {
                if buffer.is_matrix_thread() {
                    return ;
                }
            },
            None => {},
        }
        let previous = clone_opt(&self.selected_buffer_id);
        match previous {
            Some(prev) => {
                if !same_text(prev.as_str(), id.as_str()) {
                    self.leave_buffer(prev.as_str());
                }
            },
            None => {},
        }
        self.put_on_view(id.as_str(), clock.ticks);
        self.enter_buffer(id.as_str());
        self.remember_buffer_read_marker(id.as_str());
    }
}

/// Selecting a thread changes nothing.
pub proof fn threads_cannot_be_selected(state: AppView, id: Seq<char>, ticks: u64)
    requires
        buffer_of(state.buffers, id) is Some,
        buffer_of(state.buffers, id)->0.is_thread(),
    ensures
        state.selecting(id, ticks) == state,
{
}

/// A buffer that is selected has nothing unread, and it counts as read.
pub proof fn selected_buffer_is_read(state: AppView, id: Seq<char>, ticks: u64)
    requires
        buffer_of(state.buffers, id) is Some,
        !buffer_of(state.buffers, id)->0.is_thread(),
    ensures
        ({
            let after = state.selecting(id, ticks);
            let b = after.buffers[buffer_place(state.buffers, id)->0];
            &&& after.selected_buffer_id == Some(id)
            &&& b.id == id && b.unread_count == 0 && b.activity is Idle
            &&& after.cleared_buffer_ids.contains(id)
            &&& after.cleared_buffer_names.contains(b.full_name)
        }),
{
    crate::seqs::lemma_last_index(state.buffers, |b: BufferView| b.id == id);
}

// ---------------------------------------------------------------------------
// Threads
// ---------------------------------------------------------------------------

/// A buffer with nothing unread.
pub open spec fn seen(b: BufferView) -> BufferView {
    BufferView { activity: BufferActivity::Idle, unread_count: 0, ..b }
}

impl AppView {
    /// The state with a thread noted as the open one.
    pub open spec fn thread_noted(self, id: Seq<char>, thread: BufferView) -> AppView {
        AppView {
            thread_input_text: if self.open_thread_buffer_id == Some(id) {
                self.thread_input_text
            } else {
                Seq::empty()
            },
            open_thread_buffer_id: Some(id),
            open_thread_snapshot: Some(thread),
            focus_thread_input: false,
            ..self
        }
    }

    /// The state with a buffer marked as read, after its lines were asked for
    /// where there are none.
    pub open spec fn thread_asked(self, id: Seq<char>, needs_lines: bool) -> AppView {
        match self.owner(id) {
            Some((conn, raw_id)) => {
                let asked = if needs_lines {
                    self.doing(ActionView::FetchLines { conn, raw_id, count: INITIAL_LINES })
                } else {
                    self
                };
                asked.doing(ActionView::MarkRead { conn, raw_id })
            },
            None => self,
        }
    }

    /// The state after a thread was opened beside the room.
    pub open spec fn opening_thread(self, id: Seq<char>) -> AppView {
        match buffer_place(self.buffers, id) {
            Some(i) if self.buffers[i].is_thread() => self.thread_noted(
                id,
                self.buffers[i],
            ).with_buffer(i, seen(self.buffers[i])).activity_cleared(id).marker_remembered(
                id,
            ).thread_asked(id, self.buffers[i].messages.len() == 0),
            _ => self,
        }
    }

    pub open spec fn closing_thread(self) -> AppView {
        AppView {
            open_thread_buffer_id: None,
            open_thread_snapshot: None,
            thread_input_text: Seq::empty(),
            focus_thread_input: false,
            ..self
        }
    }
}

fn see(buffer: &mut Buffer)
    ensures
        final(buffer)@ == seen(old(buffer)@),
{
    buffer.activity = BufferActivity::Idle;
    buffer.unread_count = 0;
}

impl WeeChatApp {
    fn note_thread(&mut self, id: &str, thread: Buffer)
        ensures
            final(self)@ == old(self)@.thread_noted(id@, thread@),
            old(self).wf() ==> final(self).wf(),
            final(self).buffers@ == old(self).buffers@,
    {
        let ghost start = self@;
        if !opt_is(&self.open_thread_buffer_id, id) {
            self.thread_input_text = String::new();
            assert(self.thread_input_text@ =~= Seq::empty());
        }
        self.open_thread_buffer_id = Some(id.to_owned());
        self.open_thread_snapshot = Some(thread);
        self.focus_thread_input = false;
        assert(self@.profiles == start.profiles);
    }

    fn see_buffer(&mut self, i: usize)
        requires
            old(self).wf(),
            i < old(self).buffers@.len(),
        ensures
            final(self).wf(),
            final(self)@ == old(self)@.with_buffer(i as int, seen(old(self)@.buffers[i as int])),
    {
        let ghost before = self.buffers@;
        see(&mut self.buffers[i]);
        proof {
            lemma_touched(before, self.buffers@, i as int);
        }
    }

    fn ask_thread(&mut self, id: &str, needs_lines: bool)
        ensures
            final(self)@ == old(self)@.thread_asked(id@, needs_lines),
            old(self).wf() ==> final(self).wf(),
    {
        match self.client_for_buffer(id) {
            Some((conn, raw_id)) => {
                if needs_lines {
                    self.act(
                        Action::FetchLines {
                            conn: conn.clone(),
                            raw_id: raw_id.clone(),
                            count: INITIAL_LINES,
                        },
                    );
                }
                self.act(Action::MarkRead { conn, raw_id });
            },
            None => {},
        }
    }

    /// Opens a thread beside the room.
    pub fn open_thread(&mut self, buffer_id: String)
        requires
            old(self).wf(),
        ensures
            final(self).wf(),
            final(self)@ == old(self)@.opening_thread(buffer_id@),
    {
        let id = buffer_id.as_str();
        let i: usize = match self.buffer_idx_of(id) {
            Some(i) => i,
            None => {
                return ;
            },
        };
        assert(self@.buffers[i as int] == self.buffers@[i as int]@);
        if !self.buffers[i].is_matrix_thread() {
            return ;
        }
        let thread = self.buffers[i].clone();
        let needs_lines = self.buffers[i].messages.len() == 0;
        assert(thread@.messages.len() == self.buffers@[i as int].messages@.len());
        self.note_thread(id, thread);
        self.see_buffer(i);
        self.clear_buffer_activity_persistently(id);
        self.remember_buffer_read_marker(id);
        self.ask_thread(id, needs_lines);
    }

    pub fn close_thread(&mut self)
        ensures
            final(self)@ == old(self)@.closing_thread(),
            old(self).wf() ==> final(self).wf(),
    {
        let ghost start = self@;
        self.open_thread_buffer_id = None;
        self.open_thread_snapshot = None;
        self.thread_input_text = String::new();
        assert(self.thread_input_text@ =~= Seq::empty());
        self.focus_thread_input = false;
        assert(self@.profiles == start.profiles);
    }
}

/// Opening a thread never changes which buffer is on view.
pub proof fn opening_a_thread_keeps_the_room(state: AppView, id: Seq<char>)
    ensures
        state.opening_thread(id).selected_buffer_id == state.selected_buffer_id,
        state.opening_thread(id).input_text == state.input_text,
{
}

// ---------------------------------------------------------------------------
// Older history
// ---------------------------------------------------------------------------

/// The kind of server behind a buffer.
#[verifier::opaque]
pub open spec fn backend_of(connections: Seq<ConnectionView>, buffer_id: Seq<char>) -> Option<
    BackendType,
> {
    match first_index(connections, |c: ConnectionView| starts_with(buffer_id, c.prefix + "/"@)) {
        Some(i) => Some(connections[i].backend_type),
        None => None,
    }
}

/// The first line and the number of lines on view.
#[verifier::opaque]
pub open spec fn view_anchor(
    buffers: Seq<BufferView>,
    b: BufferView,
    view_id: Seq<char>,
) -> (Option<Seq<char>>, usize) {
    let lines = if view_id == b.id {
        b.messages
    } else {
        composed_lines(buffers, view_id)
    };
    (
        if lines.len() > 0 {
            Some(lines[0].id)
        } else {
            None
        },
        lines.len() as usize,
    )
}

/// How older lines of a buffer are asked for: what is there, what kind of
/// server it is, and the size of the next snapshot where one is asked for.
#[derive(Debug, Clone, Copy, PartialEq, Eq, Structural)]
pub struct OlderPlan {
    pub current: usize,
    pub is_matrix: bool,
    pub is_soju: bool,
    pub count: Option<usize>,
}

impl AppView {
    /// The state after older history was asked for.
    pub open spec fn asking_older(self, id: Seq<char>, view_id: Seq<char>) -> AppView {
        if self.loading_more_buffer_id is Some || self.history_exhausted_buffer_ids.contains(id) {
            self
        } else {
            match buffer_of(self.buffers, id) {
                Some(b) => self.asking_older_of(b, id, view_id),
                None => self,
            }
        }
    }

    pub open spec fn asking_older_of(self, b: BufferView, id: Seq<char>, view_id: Seq<char>) -> AppView {
        let plan = self.older_plan(b, id);
        if !plan.is_matrix && !plan.is_soju && plan.count is None {
            self.exhausted_noted(id)
        } else {
            self.older_noted(id, view_id, view_anchor(self.buffers, b, view_id)).count_noted(
                id,
                plan.count,
                plan.is_matrix,
                plan.current,
            ).older_asked(id, plan.is_matrix, plan.is_soju, oldest_time(b), plan.count)
        }
    }

    /// The state with a buffer noted as having nothing older.
    pub open spec fn exhausted_noted(self, id: Seq<char>) -> AppView {
        AppView {
            history_exhausted_buffer_ids: self.history_exhausted_buffer_ids.insert(id),
            ..self
        }
    }

    /// How older lines of a buffer are asked for.
    #[verifier::opaque]
    pub open spec fn older_plan(self, b: BufferView, id: Seq<char>) -> OlderPlan {
        let current = b.messages.len() as usize;
        let is_matrix = b.plugin == "matrix"@;
        let is_soju = backend_of(self.connections, id) == Some(BackendType::Soju);
        OlderPlan {
            current,
            is_matrix,
            is_soju,
            count: if is_matrix || is_soju {
                None
            } else {
                next_request(current, self.asked_before(id, current))
            },
        }
    }

    /// How many lines were last asked for.
    pub open spec fn asked_before(self, id: Seq<char>, current: usize) -> usize {
        if self.history_request_counts.contains_key(id) {
            self.history_request_counts[id]
        } else {
            current
        }
    }

    /// The state with a request for older lines on its way.
    pub open spec fn older_noted(
        self,
        id: Seq<char>,
        view_id: Seq<char>,
        anchor: (Option<Seq<char>>, usize),
    ) -> AppView {
        AppView {
            loading_more_buffer_id: Some(id),
            history_top_armed_buffer_ids: self.history_top_armed_buffer_ids.remove(id),
            history_scroll_anchors: match anchor.0 {
                Some(first) => self.history_scroll_anchors.insert(view_id, (first, anchor.1)),
                None => self.history_scroll_anchors,
            },
            ..self
        }
    }

    /// The state with the size of a request noted.
    pub open spec fn count_noted(
        self,
        id: Seq<char>,
        count: Option<usize>,
        is_matrix: bool,
        current: usize,
    ) -> AppView {
        AppView {
            history_request_counts: match count {
                Some(n) => self.history_request_counts.insert(id, n),
                None => if is_matrix && !self.history_request_counts.contains_key(id) {
                    self.history_request_counts.insert(
                        id,
                        if current > INITIAL_LINES {
                            current
                        } else {
                            INITIAL_LINES
                        },
                    )
                } else {
                    self.history_request_counts
                },
            },
            ..self
        }
    }

    /// The state with a request for older lines made, in the way that the
    /// server behind the buffer knows.
    pub open spec fn older_asked(
        self,
        id: Seq<char>,
        is_matrix: bool,
        is_soju: bool,
        oldest: Option<Seq<char>>,
        count: Option<usize>,
    ) -> AppView {
        match self.owner(id) {
            Some((conn, raw_id)) => if is_matrix {
                self.doing(ActionView::SendMessage { conn, raw_id, text: "/matrix history"@ })
            } else if is_soju {
                match oldest {
                    Some(timestamp) => self.doing(
                        ActionView::FetchLinesBefore { conn, raw_id, timestamp },
                    ),
                    None => self,
                }
            } else {
                match count {
                    Some(count) => self.doing(ActionView::FetchLines { conn, raw_id, count }),
                    None => self,
                }
            },
            None => AppView { loading_more_buffer_id: None, ..self },
        }
    }
}

/// The time of the oldest line of a buffer, as a request writes it.
pub open spec fn oldest_time(b: BufferView) -> Option<Seq<char>> {
    if b.messages.len() > 0 {
        formatted_time(b.messages[0].timestamp, HISTORY_TIME_FORMAT@)
    } else {
        None
    }
}

impl WeeChatApp {
    pub fn backend_type_for_buffer(&self, buffer_id: &str) -> (backend: Option<BackendType>)
        ensures
            backend == backend_of(self@.connections, buffer_id@),
    {
        reveal(backend_of);
        let found = |c: &ConnectionHandle| -> (r: bool)
            ensures
                r == starts_with(buffer_id@, c@.prefix + "/"@),
            {
                let head = join2(c.prefix.as_str(), "/");
                crate::text::str_starts_with(buffer_id, head.as_str())
            };
        match crate::seqs::position_from(
            self.connections.as_slice(),
            0,
            found,
            Ghost(|c: ConnectionView| starts_with(buffer_id@, c.prefix + "/"@)),
        ) {
            Some(i) => {
                assert(self@.connections[i as int] == self.connections@[i as int]@);
                Some(self.connections[i].backend_type)
            },
            None => None,
        }
    }

    fn anchor_of(&self, i: usize, view_id: &str) -> (anchor: (Option<String>, usize))
        requires
            i < self.buffers@.len(),
        ensures
            (opt_text(anchor.0), anchor.1) == view_anchor(
                self@.buffers,
                self.buffers@[i as int]@,
                view_id@,
            ),
    {
        reveal(view_anchor);
        if same_text(view_id, self.buffers[i].id.as_str()) {
            let n: usize = self.buffers[i].messages.len();
            let ghost lines = self.buffers@[i as int]@.messages;
            assert(lines.len() == n);
            if n > 0 {
                assert(lines[0] == self.buffers@[i as int].messages@[0]@);
                (Some(self.buffers[i].messages[0].id.clone()), n)
            } else {
                (None, n)
            }
        } else {
            let history = composed_upgrade_history(&self.buffers, view_id);
            let n: usize = history.0.len();
            let ghost lines = composed_lines(self@.buffers, view_id@);
            assert(lines.len() == n);
            if n > 0 {
                assert(lines[0] == (history.0)@[0]@);
                (Some(history.0[0].id.clone()), n)
            } else {
                (None, n)
            }
        }
    }

    fn note_older(&mut self, id: &str, view_id: &str, anchor: (Option<String>, usize))
        ensures
            final(self)@ == old(self)@.older_noted(
                id@,
                view_id@,
                (opt_text(anchor.0), anchor.1),
            ),
            old(self).wf() ==> final(self).wf(),
    {
        let ghost before = self@;
        self.loading_more_buffer_id = Some(id.to_owned());
        self.history_top_armed_buffer_ids.remove(id);
        assert(self@.buffers == before.buffers);
        match anchor.0 {
            Some(first) => {
                self.history_scroll_anchors.insert(view_id.to_owned(), (first, anchor.1));
                assert(self@.buffers == before.buffers);
            },
            None => {},
        }
    }

    fn note_count(&mut self, id: &str, count: Option<usize>, is_matrix: bool, current: usize)
        ensures
            final(self)@ == old(self)@.count_noted(id@, count, is_matrix, current),
            old(self).wf() ==> final(self).wf(),
    {
        let ghost start = self@;
        match count {
            Some(n) => {
                self.history_request_counts.insert(id.to_owned(), n);
            },
            None => {
                if is_matrix && !self.history_request_counts.contains_key(id) {
                    let first: usize = if current > INITIAL_LINES {
                        current
                    } else {
                        INITIAL_LINES
                    };
                    self.history_request_counts.insert(id.to_owned(), first);
                }
            },
        }
        assert(self@.profiles == start.profiles);
    }

    fn ask_older(
        &mut self,
        id: &str,
        is_matrix: bool,
        is_soju: bool,
        oldest: Option<String>,
        count: Option<usize>,
    )
        ensures
            final(self)@ == old(self)@.older_asked(
                id@,
                is_matrix,
                is_soju,
                opt_text(oldest),
                count,
            ),
            old(self).wf() ==> final(self).wf(),
    {
        match self.client_for_buffer(id) {
            Some((conn, raw_id)) => {
                if is_matrix {
                    self.act(
                        Action::SendMessage { conn, raw_id, text: "/matrix history".to_owned() },
                    );
                } else if is_soju {
                    match oldest {
                        Some(timestamp) => {
                            self.act(Action::FetchLinesBefore { conn, raw_id, timestamp });
                        },
                        None => {},
                    }
                } else {
                    match count {
                        Some(n) => {
                            self.act(Action::FetchLines { conn, raw_id, count: n });
                        },
                        None => {},
                    }
                }
            },
            None => {
                self.loading_more_buffer_id = None;
            },
        }
    }

    fn oldest_time_of(&self, i: usize) -> (oldest: Option<String>)
        requires
            i < self.buffers@.len(),
        ensures
            opt_text(oldest) == oldest_time(self.buffers@[i as int]@),
    {
        let ghost b = self.buffers@[i as int]@;
        assert(b.messages.len() == self.buffers@[i as int].messages@.len());
        if self.buffers[i].messages.len() > 0 {
            assert(b.messages[0] == self.buffers@[i as int].messages@[0]@);
            format_time(self.buffers[i].messages[0].timestamp, HISTORY_TIME_FORMAT)
        } else {
            None
        }
    }

    pub(crate) fn note_exhausted(&mut self, id: &str)
        ensures
            final(self)@ == old(self)@.exhausted_noted(id@),
            old(self).wf() ==> final(self).wf(),
    {
        let ghost before = self@;
        self.history_exhausted_buffer_ids.insert(id.to_owned());
        assert(self@.buffers == before.buffers);
    }

    fn older_plan_of(&self, i: usize, buffer_id: &str) -> (plan: OlderPlan)
        requires
            i < self.buffers@.len(),
        ensures
            plan == self@.older_plan(self.buffers@[i as int]@, buffer_id@),
    {
        reveal(AppView::older_plan);
        let current: usize = self.buffers[i].messages.len();
        assert(self.buffers@[i as int]@.messages.len() == current);
        let is_matrix = same_text(self.buffers[i].plugin.as_str(), "matrix");
        let previous: usize = match self.history_request_counts.get(buffer_id) {
            Some(count) => *count,
            None => current,
        };
        let is_soju = match self.backend_type_for_buffer(buffer_id) {
            Some(kind) => kind == BackendType::Soju,
            None => false,
        };
        let count = if is_matrix || is_soju {
            None
        } else {
            next_history_request_count(current, previous)
        };
        OlderPlan { current, is_matrix, is_soju, count }
    }

    fn request_older_of(&mut self, i: usize, buffer_id: &str, view_buffer_id: &str)
        requires
            old(self).wf(),
            i < old(self).buffers@.len(),
        ensures
            final(self).wf(),
            final(self)@ == old(self)@.asking_older_of(
                old(self).buffers@[i as int]@,
                buffer_id@,
                view_buffer_id@,
            ),
    {
        let plan = self.older_plan_of(i, buffer_id);
        if !plan.is_matrix && !plan.is_soju && plan.count.is_none() {
            self.note_exhausted(buffer_id);
            return ;
        }
        let anchor = self.anchor_of(i, view_buffer_id);
        let oldest = self.oldest_time_of(i);
        self.note_older(buffer_id, view_buffer_id, anchor);
        self.note_count(buffer_id, plan.count, plan.is_matrix, plan.current);
        self.ask_older(buffer_id, plan.is_matrix, plan.is_soju, oldest, plan.count);
    }

    /// Asks for older history of a buffer that is on view, itself or as part of
    /// the history of a room that replaced it.
    pub fn request_older_history(&mut self, buffer_id: &str, view_buffer_id: &str)
        requires
            old(self).wf(),
        ensures
            final(self).wf(),
            final(self)@ == old(self)@.asking_older(buffer_id@, view_buffer_id@),
    {
        if self.loading_more_buffer_id.is_some() || self.history_exhausted_buffer_ids.contains(
            buffer_id,
        ) {
            return ;
        }
        match self.buffer_idx_of(buffer_id) {
            Some(i) => {
                assert(self@.buffers[i as int] == self.buffers@[i as int]@);
                self.request_older_of(i, buffer_id, view_buffer_id);
            },
            None => {},
        }
    }
}

/// While one page of history is on its way, and once there is nothing older, no
/// further page is asked for.
pub proof fn history_is_asked_for_once(state: AppView, id: Seq<char>, view_id: Seq<char>)
    requires
        state.loading_more_buffer_id is Some || state.history_exhausted_buffer_ids.contains(id),
    ensures
        state.asking_older(id, view_id) == state,
{
}

} // verus!
