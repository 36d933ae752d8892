//! Events of a connection, whatever server is behind it.
use vstd::prelude::*;
use vstd::string::StringExecFns;
use crate::connection::{BackendType, ConnectionHandle, ConnectionView};
use crate::events::BufferChange;
use crate::lines::{append_page, body_of, oldest_part, prepend_page, push_bounded, unknown_lines, without_oldest};
use crate::models::{Buffer, BufferActivity, BufferView, Line, LineView, Nick, WeeChatResponse};
use crate::relay_buffers::{belongs_to, keep_other_connections, without_connection};
use crate::relay_lines::{full_id, full_id_of, one_more};
use crate::rooms::{
    is_restorable, is_restorable_chat_buffer, newest_part, preferred_chat, preferred_chat_buffer_id,
};
use crate::seqs::{first_index, keep_items, position_from, views};
use crate::session::lemma_connection_touched;
use crate::state::{
    buffer_of, buffer_place, lemma_touched, Action, ActionView, AppView, Clock, RelayEntry,
    WeeChatApp, LOAD_MORE_LINES,
};
use crate::text::{
    clone_opt, contains, ends_with, join2, lowercase, opt_is, opt_text, same_text, str_contains,
    str_ends_with, str_starts_with, to_lowercase,
};
use crate::time::{at_or_before, Timestamp};

verus! {

/// What a connection reports.
#[derive(Debug)]
pub enum BackendEvent {
    Connected,
    Disconnected,
    AuthError(String),
    Error(String),
    ConnLog(String),
    /// An answer or an event of the relay, with what was read out of each of
    /// its entries beside the JSON.
    WeeChat(WeeChatResponse, Vec<RelayEntry>),
    BufferOpened(Buffer),
    BufferClosed { buffer_id: String },
    BuffersLoaded(Vec<Buffer>),
    LineAdded { buffer_id: String, line: Line },
    NicklistLoaded { buffer_id: String, nicks: Vec<Nick> },
    NickAdded { buffer_id: String, nick: Nick },
    NickRemoved { buffer_id: String, nick_name: String },
    NickAwayChanged { buffer_id: String, nick_name: String, away: bool },
    TopicChanged { buffer_id: String, topic: String },
    ActivityChanged {
        buffer_id: String,
        activity: BufferActivity,
        unread_count: u32,
        markread_ts: Option<Timestamp>,
    },
    LinesLoaded { buffer_id: String, lines: Vec<Line>, is_prepend: bool },
    BufferHidden { buffer_id: String, hidden: bool },
}

// ---------------------------------------------------------------------------
// The connection itself
// ---------------------------------------------------------------------------

impl ConnectionView {
    /// The log entries about how a connection came up.
    pub open spec fn handshake_logged(self, hm: Seq<char>) -> ConnectionView {
        match self.backend_type {
            BackendType::WeeChat => self.with_entry(hm, "WebSocket handshake complete"@).with_entry(
                hm,
                "Sending credentials via Sec-WebSocket-Protocol bearer token"@,
            ).with_entry(hm, "Authentication accepted by relay"@).with_entry(
                hm,
                "→ GET /api/buffers"@,
            ).with_entry(hm, "→ POST /api/sync  {colors: ansi, input: false}"@),
            BackendType::Soju => self.with_entry(
                hm,
                "IRC registration complete (CAP/NICK/USER)"@,
            ),
        }
    }

    pub open spec fn connected(self, hm: Seq<char>) -> ConnectionView {
        ConnectionView {
            is_connecting: false,
            connecting_pending: false,
            auth_error: None,
            status: "Connected"@,
            ..self
        }.handshake_logged(hm).with_entry(hm, "Connected"@).trimmed()
    }

    /// A connection that was closed, before it came up or after.
    pub open spec fn disconnected(self, hm: Seq<char>) -> ConnectionView {
        if self.connecting_pending {
            ConnectionView {
                is_connecting: false,
                connecting_pending: false,
                auth_error: Some(
                    "Connection closed before auth completed — check your password and relay settings."@,
                ),
                status: Seq::empty(),
                ..self
            }.with_entry(hm, "WebSocket closed by server before authentication completed"@).with_entry(
                hm,
                "Check: relay password, relay plugin loaded, port correct"@,
            ).trimmed()
        } else {
            ConnectionView { is_connecting: false, status: "Disconnected"@, ..self }.with_entry(
                hm,
                if self.auto_reconnect {
                    "Disconnected — auto-reconnect is ON, will retry"@
                } else {
                    "Disconnected"@
                },
            ).trimmed()
        }
    }

    /// A connection after an error, before it came up or after.
    pub open spec fn failed(self, error: Seq<char>, hm: Seq<char>) -> ConnectionView {
        if self.connecting_pending {
            if is_auth_failure(error) {
                ConnectionView {
                    connecting_pending: false,
                    auth_error: Some(
                        "Wrong password or relay not configured to accept this connection."@,
                    ),
                    status: Seq::empty(),
                    ..self
                }.with_entry(hm, "Auth error: "@ + error).with_entry(
                    hm,
                    "Wrong password or relay not configured to accept this connection"@,
                ).trimmed()
            } else {
                ConnectionView {
                    connecting_pending: false,
                    auth_error: Some("Connection failed: "@ + error),
                    status: Seq::empty(),
                    ..self
                }.with_entry(hm, "Connection error: "@ + error).trimmed()
            }
        } else {
            ConnectionView { status: "Error: "@ + error, ..self }.with_entry(
                hm,
                "Error: "@ + error,
            ).trimmed()
        }
    }
}

/// Whether an error says that the password was refused.
pub open spec fn is_auth_failure(error: Seq<char>) -> bool {
    contains(error, "401"@) || contains(error, "403"@) || contains(
        lowercase(error),
        "unauthorized"@,
    ) || contains(lowercase(error), "forbidden"@)
}

/// Whether an error says that the password was refused, given the error in
/// lower case.
pub fn is_auth_error(error: &str, lower: &str) -> (yes: bool)
    ensures
        yes == (contains(error@, "401"@) || contains(error@, "403"@) || contains(
            lower@,
            "unauthorized"@,
        ) || contains(lower@, "forbidden"@)),
{
    str_contains(error, "401") || str_contains(error, "403") || str_contains(lower, "unauthorized")
        || str_contains(lower, "forbidden")
}

impl ConnectionHandle {
    fn log_handshake(&mut self, hm: &str)
        ensures
            final(self)@ == old(self)@.handshake_logged(hm@),
    {
        match self.backend_type {
            BackendType::WeeChat => {
                self.push_log(hm, "WebSocket handshake complete");
                self.push_log(hm, "Sending credentials via Sec-WebSocket-Protocol bearer token");
                self.push_log(hm, "Authentication accepted by relay");
                self.push_log(hm, "→ GET /api/buffers");
                self.push_log(hm, "→ POST /api/sync  {colors: ansi, input: false}");
            },
            BackendType::Soju => {
                self.push_log(hm, "IRC registration complete (CAP/NICK/USER)");
            },
        }
    }

    fn come_up(&mut self, hm: &str)
        ensures
            final(self)@ == old(self)@.connected(hm@),
    {
        self.is_connecting = false;
        self.connecting_pending = false;
        self.auth_error = None;
        self.status = "Connected".to_owned();
        self.log_handshake(hm);
        self.push_log(hm, "Connected");
        self.trim_log();
    }

    fn go_down(&mut self, hm: &str)
        ensures
            final(self)@ == old(self)@.disconnected(hm@),
    {
        self.is_connecting = false;
        if self.connecting_pending {
            self.connecting_pending = false;
            self.auth_error = Some(
                "Connection closed before auth completed — check your password and relay settings.".to_owned(),
            );
            self.status = String::new();
            assert(self.status@ =~= Seq::empty());
            self.push_log(hm, "WebSocket closed by server before authentication completed");
            self.push_log(hm, "Check: relay password, relay plugin loaded, port correct");
        } else {
            self.status = "Disconnected".to_owned();
            if self.auto_reconnect {
                self.push_log(hm, "Disconnected — auto-reconnect is ON, will retry");
            } else {
                self.push_log(hm, "Disconnected");
            }
        }
        self.trim_log();
    }

    fn fail(&mut self, error: &str, hm: &str)
        ensures
            final(self)@ == old(self)@.failed(error@, hm@),
    {
        if self.connecting_pending {
            let lower = to_lowercase(error);
            let is_auth = is_auth_error(error, lower.as_str());
            self.connecting_pending = false;
            self.status = String::new();
            assert(self.status@ =~= Seq::empty());
            if is_auth {
                self.auth_error = Some(
                    "Wrong password or relay not configured to accept this connection.".to_owned(),
                );
                self.push_log(hm, join2("Auth error: ", error).as_str());
                self.push_log(
                    hm,
                    "Wrong password or relay not configured to accept this connection",
                );
            } else {
                self.auth_error = Some(join2("Connection failed: ", error));
                self.push_log(hm, join2("Connection error: ", error).as_str());
            }
        } else {
            self.status = join2("Error: ", error);
            self.push_log(hm, join2("Error: ", error).as_str());
        }
        self.trim_log();
    }
}

impl AppView {
    /// The state without the buffers of a connection.
    pub open spec fn buffers_dropped(self, prefix: Seq<char>) -> AppView {
        AppView { buffers: without_connection(self.buffers, prefix), ..self }
    }

    /// The state after a connection came up: its old buffers are gone, and new
    /// ones are asked for.
    pub open spec fn came_up(self, prefix: Seq<char>, hm: Seq<char>) -> AppView {
        self.changing_connection(prefix, |c: ConnectionView| c.connected(hm)).buffers_dropped(
            prefix,
        ).cleared_ids_dropped(prefix).fresh_asked(prefix).log_touched()
    }

    /// The state with no buffer of a connection noted as read in this run, so
    /// that fresh unread counts apply.
    pub open spec fn cleared_ids_dropped(self, prefix: Seq<char>) -> AppView {
        AppView {
            cleared_buffer_ids: self.cleared_buffer_ids.filter(
                |id: Seq<char>| !belongs_to(id, prefix),
            ),
            ..self
        }
    }

    pub open spec fn fresh_asked(self, prefix: Seq<char>) -> AppView {
        if self.has_connection(prefix) {
            self.doing(ActionView::FetchBufferList { conn: prefix }).doing(
                ActionView::SyncSubscriptions { conn: prefix },
            )
        } else {
            self
        }
    }

    /// The state with another buffer on view where the one on view is gone.
    pub open spec fn selection_moved(self, prefix: Seq<char>) -> AppView {
        match self.selected_buffer_id {
            Some(id) if belongs_to(id, prefix) => AppView {
                selected_buffer_id: if self.buffers.len() > 0 {
                    Some(self.buffers[0].id)
                } else {
                    None
                },
                ..self
            },
            _ => self,
        }
    }

    /// The state after a connection was closed.
    pub open spec fn went_down(self, prefix: Seq<char>, hm: Seq<char>) -> AppView {
        self.changing_connection(prefix, |c: ConnectionView| c.disconnected(hm)).buffers_dropped(
            prefix,
        ).selection_moved(prefix).log_touched()
    }

    /// The state after an error of a connection.
    pub open spec fn connection_failed(self, prefix: Seq<char>, error: Seq<char>, hm: Seq<char>) -> AppView {
        self.changing_connection(prefix, |c: ConnectionView| c.failed(error, hm)).log_touched()
    }
}

impl WeeChatApp {
    fn bring_up(&mut self, conn_prefix: &str, clock: &Clock)
        ensures
            final(self)@ == old(self)@.changing_connection(
                conn_prefix@,
                |c: ConnectionView| c.connected(clock.hm@),
            ),
    {
        match self.connection_idx_of(conn_prefix) {
            Some(i) => {
                let ghost before = self.connections@;
                assert(self@.connections[i as int] == before[i as int]@);
                self.connections[i].come_up(clock.hm.as_str());
                proof {
                    lemma_connection_touched(before, self.connections@, i as int);
                }
            },
            None => {},
        }
    }

    fn bring_down(&mut self, conn_prefix: &str, clock: &Clock)
        ensures
            final(self)@ == old(self)@.changing_connection(
                conn_prefix@,
                |c: ConnectionView| c.disconnected(clock.hm@),
            ),
    {
        match self.connection_idx_of(conn_prefix) {
            Some(i) => {
                let ghost before = self.connections@;
                assert(self@.connections[i as int] == before[i as int]@);
                self.connections[i].go_down(clock.hm.as_str());
                proof {
                    lemma_connection_touched(before, self.connections@, i as int);
                }
            },
            None => {},
        }
    }

    fn fail_connection(&mut self, conn_prefix: &str, error: &str, clock: &Clock)
        ensures
            final(self)@ == old(self)@.changing_connection(
                conn_prefix@,
                |c: ConnectionView| c.failed(error@, clock.hm@),
            ),
            old(self).wf() ==> final(self).wf(),
    {
        match self.connection_idx_of(conn_prefix) {
            Some(i) => {
                let ghost before = self.connections@;
                assert(self@.connections[i as int] == before[i as int]@);
                self.connections[i].fail(error, clock.hm.as_str());
                proof {
                    lemma_connection_touched(before, self.connections@, i as int);
                }
            },
            None => {},
        }
    }

    fn drop_buffers(&mut self, conn_prefix: &str)
        ensures
            final(self).wf(),
            final(self)@ == old(self)@.buffers_dropped(conn_prefix@),
    {
        let ghost start = self@;
        let mut all: Vec<Buffer> = Vec::new();
        core::mem::swap(&mut all, &mut self.buffers);
        self.buffers = keep_other_connections(all, conn_prefix);
        self.rebuild_buffer_idx();
        assert(self@.profiles == start.profiles);
    }

    fn drop_cleared_ids(&mut self, conn_prefix: &str)
        ensures
            final(self)@ == old(self)@.cleared_ids_dropped(conn_prefix@),
            old(self).wf() ==> final(self).wf(),
    {
        let head = join2(conn_prefix, "/");
        let h = head.as_str();
        let keep = |id: &String| -> (r: bool)
            ensures
                r == !belongs_to(id@, conn_prefix@),
            { !str_starts_with(id.as_str(), h) };
        let ghost kept = |id: Seq<char>| !belongs_to(id, conn_prefix@);
        self.cleared_buffer_ids.retain(keep, Ghost(kept));
    }

    fn ask_fresh(&mut self, conn_prefix: &str)
        ensures
            final(self)@ == old(self)@.fresh_asked(conn_prefix@),
            old(self).wf() ==> final(self).wf(),
    {
        if self.connection_idx_of(conn_prefix).is_some() {
            self.act(Action::FetchBufferList { conn: conn_prefix.to_owned() });
            self.act(Action::SyncSubscriptions { conn: conn_prefix.to_owned() });
        }
    }

    fn move_selection(&mut self, conn_prefix: &str)
        ensures
            final(self)@ == old(self)@.selection_moved(conn_prefix@),
            old(self).wf() ==> final(self).wf(),
    {
        let head = join2(conn_prefix, "/");
        let gone = match &self.selected_buffer_id {
            Some(id) => str_starts_with(id.as_str(), head.as_str()),
            None => false,
        };
        if gone {
            assert(self@.buffers.len() == self.buffers@.len());
            let next = if self.buffers.len() > 0 {
                assert(self@.buffers[0] == self.buffers@[0]@);
                Some(self.buffers[0].id.clone())
            } else {
                None
            };
            self.selected_buffer_id = next;
        }
    }

    fn handle_connected(&mut self, conn_prefix: &str, clock: &Clock)
        ensures
            final(self).wf(),
            final(self)@ == old(self)@.came_up(conn_prefix@, clock.hm@),
    {
        self.bring_up(conn_prefix, clock);
        self.drop_buffers(conn_prefix);
        self.drop_cleared_ids(conn_prefix);
        self.ask_fresh(conn_prefix);
        self.touch_log();
    }

    fn handle_disconnected(&mut self, conn_prefix: &str, clock: &Clock)
        ensures
            final(self).wf(),
            final(self)@ == old(self)@.went_down(conn_prefix@, clock.hm@),
    {
        self.bring_down(conn_prefix, clock);
        self.drop_buffers(conn_prefix);
        self.move_selection(conn_prefix);
        self.touch_log();
    }

    fn handle_failure(&mut self, conn_prefix: &str, error: &str, clock: &Clock)
        requires
            old(self).wf(),
        ensures
            final(self).wf(),
            final(self)@ == old(self)@.connection_failed(conn_prefix@, error@, clock.hm@),
    {
        self.fail_connection(conn_prefix, error, clock);
        self.touch_log();
    }
}

// ---------------------------------------------------------------------------
// Buffers
// ---------------------------------------------------------------------------

/// A buffer under the names that it has across connections.
pub open spec fn prefixed(b: BufferView, prefix: Seq<char>) -> BufferView {
    BufferView { id: full_id(prefix, b.id), full_name: full_id(prefix, b.full_name), ..b }
}

fn prefix_buffer(b: Buffer, prefix: &str) -> (out: Buffer)
    ensures
        out@ == prefixed(b@, prefix@),
{
    let mut out = b;
    out.id = full_id_of(prefix, out.id.as_str());
    out.full_name = full_id_of(prefix, out.full_name.as_str());
    out
}

impl AppView {
    /// The state with a buffer added, unless it is there.
    pub open spec fn buffer_added(self, b: BufferView) -> AppView {
        if buffer_place(self.buffers, b.id) is Some {
            self
        } else {
            AppView { buffers: self.buffers.push(b), ..self }
        }
    }

    /// Whether a buffer is to be put on view when it comes: a chat, and the one
    /// that was open last where one is remembered.
    pub open spec fn is_awaited(self, id: Seq<char>) -> bool {
        match buffer_of(self.buffers, id) {
            Some(b) => is_restorable(b) && (self.last_chat_buffer_name is None
                || self.last_chat_buffer_name == Some(b.full_name)),
            None => false,
        }
    }

    pub open spec fn awaited_selected(self, id: Seq<char>, ticks: u64) -> AppView {
        if self.selected_buffer_id is None && self.is_awaited(id) {
            self.selecting(id, ticks)
        } else {
            self
        }
    }

    /// The state with a buffer selected that was waited for, once it is there.
    pub open spec fn opened_switch(self, ticks: u64) -> AppView {
        match self.pending_buffer_switch {
            Some(target) => match first_index(
                self.buffers,
                |b: BufferView| b.name == target || b.id == target || ends_with(b.full_name, target),
            ) {
                Some(i) => AppView { pending_buffer_switch: None, ..self }.selecting(
                    self.buffers[i].id,
                    ticks,
                ),
                None => self,
            },
            None => self,
        }
    }

    /// The state after a buffer was opened.
    pub open spec fn buffer_opened(self, prefix: Seq<char>, b: BufferView, ticks: u64) -> AppView {
        self.buffer_added(prefixed(b, prefix)).awaited_selected(
            full_id(prefix, b.id),
            ticks,
        ).opened_switch(ticks)
    }

    /// The state after a buffer was closed.
    pub open spec fn buffer_closed(self, id: Seq<char>) -> AppView {
        let buffers = self.buffers.filter(|b: BufferView| b.id != id);
        AppView {
            buffers,
            selected_buffer_id: if self.selected_buffer_id == Some(id) {
                match first_index(buffers, |b: BufferView| !b.is_thread()) {
                    Some(i) => Some(buffers[i].id),
                    None => None,
                }
            } else {
                self.selected_buffer_id
            },
            ..self
        }
    }

    /// The state with the buffers of a connection replaced by others.
    pub open spec fn buffers_replaced(self, prefix: Seq<char>, list: Seq<BufferView>) -> AppView {
        AppView {
            buffers: without_connection(self.buffers, prefix) + list.map_values(
                |b: BufferView| prefixed(b, prefix),
            ),
            ..self
        }
    }

    /// The state with a chat selected, where none is.
    pub open spec fn any_chat_chosen(self, ticks: u64) -> AppView {
        if self.selected_buffer_id is Some {
            self
        } else {
            match preferred_chat(self.buffers, self.last_chat_buffer_name) {
                Some(id) => self.selecting(id, ticks),
                None => self,
            }
        }
    }
}

impl WeeChatApp {
    fn add_buffer(&mut self, b: Buffer)
        requires
            old(self).wf(),
        ensures
            final(self).wf(),
            final(self)@ == old(self)@.buffer_added(b@),
    {
        let ghost start = self@;
        if self.buffer_idx_of(b.id.as_str()).is_none() {
            let ghost before = self.buffers@;
            self.buffers.push(b);
            assert(views(self.buffers@) =~= views(before).push(b@));
            self.rebuild_buffer_idx();
        }
        assert(self@.profiles == start.profiles);
    }

    fn awaits(&self, id: &str) -> (yes: bool)
        requires
            self.wf(),
        ensures
            yes == self@.is_awaited(id@),
    {
        match self.buffer_by_id(id) {
            Some(b) => is_restorable_chat_buffer(b) && (self.last_chat_buffer_name.is_none()
                || opt_is(&self.last_chat_buffer_name, b.full_name.as_str())),
            None => false,
        }
    }

    fn select_awaited(&mut self, id: &str, clock: &Clock)
        requires
            old(self).wf(),
        ensures
            final(self).wf(),
            final(self)@ == old(self)@.awaited_selected(id@, clock.ticks),
    {
        if self.selected_buffer_id.is_none() && self.awaits(id) {
            self.select_buffer(id.to_owned(), clock);
        }
    }

    fn switch_to_opened(&mut self, clock: &Clock)
        requires
            old(self).wf(),
        ensures
            final(self).wf(),
            final(self)@ == old(self)@.opened_switch(clock.ticks),
    {
        let target = match &self.pending_buffer_switch {
            Some(target) => target.clone(),
            None => {
                return ;
            },
        };
        let t = target.as_str();
        let found = |b: &Buffer| -> (r: bool)
            ensures
                r == (b@.name == t@ || b@.id == t@ || ends_with(b@.full_name, t@)),
            {
                same_text(b.name.as_str(), t) || same_text(b.id.as_str(), t) || str_ends_with(
                    b.full_name.as_str(),
                    t,
                )
            };
        match position_from(
            self.buffers.as_slice(),
            0,
            found,
            Ghost(|b: BufferView| b.name == t@ || b.id == t@ || ends_with(b.full_name, t@)),
        ) {
            Some(i) => {
                assert(self@.buffers[i as int] == self.buffers@[i as int]@);
                let id = self.buffers[i].id.clone();
                self.clear_pending_switch();
                self.select_buffer(id, clock);
            },
            None => {},
        }
    }

    fn handle_buffer_opened(&mut self, conn_prefix: &str, b: Buffer, clock: &Clock)
        requires
            old(self).wf(),
        ensures
            final(self).wf(),
            final(self)@ == old(self)@.buffer_opened(conn_prefix@, b@, clock.ticks),
    {
        let buffer = prefix_buffer(b, conn_prefix);
        let id = buffer.id.clone();
        self.add_buffer(buffer);
        self.select_awaited(id.as_str(), clock);
        self.switch_to_opened(clock);
    }

    fn forget_buffer(&mut self, id: &str)
        ensures
            final(self).wf(),
            final(self)@ == (AppView {
                buffers: old(self)@.buffers.filter(|b: BufferView| b.id != id@),
                ..old(self)@
            }),
    {
        let all = self.take_buffers();
        let keep = |b: &Buffer| -> (r: bool)
            ensures
                r == (b@.id != id@),
            { !same_text(b.id.as_str(), id) };
        let kept = keep_items(all, keep, Ghost(|b: BufferView| b.id != id@));
        self.put_buffers(kept);
    }

    fn handle_buffer_closed(&mut self, id: &str)
        ensures
            final(self).wf(),
            final(self)@ == old(self)@.buffer_closed(id@),
    {
        self.forget_buffer(id);
        if opt_is(&self.selected_buffer_id, id) {
            let next = self.first_row();
            self.set_selected(next);
        }
    }

    fn first_row(&self) -> (id: Option<String>)
        ensures
            opt_text(id) == (match first_index(self@.buffers, |b: BufferView| !b.is_thread()) {
                Some(i) => Some(self@.buffers[i].id),
                None => None,
            }),
    {
        let found = |b: &Buffer| -> (r: bool)
            ensures
                r == !b@.is_thread(),
            { !b.is_matrix_thread() };
        match position_from(
            self.buffers.as_slice(),
            0,
            found,
            Ghost(|b: BufferView| !b.is_thread()),
        ) {
            Some(i) => {
                assert(self@.buffers[i as int] == self.buffers@[i as int]@);
                Some(self.buffers[i].id.clone())
            },
            None => None,
        }
    }

    fn set_selected(&mut self, id: Option<String>)
        ensures
            final(self)@ == (AppView { selected_buffer_id: opt_text(id), ..old(self)@ }),
            old(self).wf() ==> final(self).wf(),
    {
        let ghost start = self@;
        self.selected_buffer_id = id;
        assert(self@.profiles == start.profiles);
    }

    fn replace_buffers(&mut self, conn_prefix: &str, list: Vec<Buffer>)
        ensures
            final(self).wf(),
            final(self)@ == old(self)@.buffers_replaced(conn_prefix@, views(list@)),
    {
        let ghost listed = list@;
        let ghost f = |b: BufferView| prefixed(b, conn_prefix@);
        let mut all: Vec<Buffer> = Vec::new();
        core::mem::swap(&mut all, &mut self.buffers);
        let mut kept = keep_other_connections(all, conn_prefix);
        let ghost others = views(kept@);
        assert(views(kept@) =~= others + views(listed).take(0).map_values(f));
        for b in it: list
            invariant
                it.seq() == listed,
                f == (|b: BufferView| prefixed(b, conn_prefix@)),
                views(kept@) == others + views(listed).take(it.index@ as int).map_values(f),
        {
            let ghost before = kept@;
            let ghost k = it.index@ as int;
            assert(views(listed)[k] == b@);
            kept.push(prefix_buffer(b, conn_prefix));
            assert(views(kept@) =~= views(before).push(f(views(listed)[k])));
            assert(views(kept@) =~= others + views(listed).take(k + 1).map_values(f));
        }
        assert(views(listed).take(listed.len() as int) =~= views(listed));
        self.buffers = kept;
        self.rebuild_buffer_idx();
    }

    fn choose_any_chat(&mut self, clock: &Clock)
        requires
            old(self).wf(),
        ensures
            final(self).wf(),
            final(self)@ == old(self)@.any_chat_chosen(clock.ticks),
    {
        if self.selected_buffer_id.is_some() {
            return ;
        }
        let name = clone_opt(&self.last_chat_buffer_name);
        match preferred_chat_buffer_id(
            &self.buffers,
            match &name {
                Some(name) => Some(name.as_str()),
                None => None,
            },
        ) {
            Some(id) => {
                self.select_buffer(id, clock);
            },
            None => {},
        }
    }
}

// ---------------------------------------------------------------------------
// Lines
// ---------------------------------------------------------------------------

/// A buffer with a line added by a server that counts for itself.
pub open spec fn with_added_line(b: BufferView, line: LineView, on_view: bool) -> BufferView {
    let lines = without_oldest(b.messages.push(line));
    if !on_view && !b.muted && line.displayed {
        BufferView {
            messages: lines,
            activity: if line.highlight {
                BufferActivity::Highlight
            } else if b.activity is Highlight {
                b.activity
            } else {
                BufferActivity::Message
            },
            unread_count: one_more(b.unread_count),
            ..b
        }
    } else {
        BufferView { messages: lines, ..b }
    }
}

fn add_line(b: &mut Buffer, line: Line, on_view: bool)
    ensures
        final(b)@ == with_added_line(old(b)@, line@, on_view),
{
    if !on_view && !b.muted && line.displayed {
        if line.highlight {
            b.activity = BufferActivity::Highlight;
        } else if b.activity != BufferActivity::Highlight {
            b.activity = BufferActivity::Message;
        }
        if b.unread_count < u32::MAX {
            b.unread_count = b.unread_count + 1;
        }
    }
    push_bounded(&mut b.messages, line);
}

/// The activity and the unread count of a buffer after old lines came that may
/// be unread: those newer than the time up to which it was read.
pub open spec fn counted(
    activity: BufferActivity,
    unread: u32,
    lines: Seq<LineView>,
    cutoff: Option<Timestamp>,
) -> (BufferActivity, u32)
    decreases lines.len(),
{
    if lines.len() == 0 {
        (activity, unread)
    } else {
        let before = counted(activity, unread, lines.drop_last(), cutoff);
        let line = lines.last();
        if !line.displayed || cutoff is Some && at_or_before(line.timestamp, cutoff->0) {
            before
        } else if line.highlight {
            (BufferActivity::Highlight, one_more(before.1))
        } else if before.0 is Highlight {
            before
        } else {
            (BufferActivity::Message, one_more(before.1))
        }
    }
}

/// A buffer with a page of lines counted as unread where they are.
pub open spec fn with_page_counted(b: BufferView, page: Seq<LineView>, is_prepend: bool) -> BufferView {
    let cutoff = if is_prepend {
        b.last_markread_ts
    } else {
        None
    };
    let (activity, unread_count) = counted(b.activity, b.unread_count, page, cutoff);
    BufferView { activity, unread_count, ..b }
}

/// A buffer with a page of lines in it.
pub open spec fn with_page(b: BufferView, page: Seq<LineView>, is_prepend: bool) -> BufferView {
    BufferView {
        messages: if is_prepend {
            oldest_part(unknown_lines(b.messages, page) + b.messages)
        } else {
            newest_part(b.messages + page)
        },
        ..b
    }
}

fn count_page(b: &mut Buffer, page: &Vec<Line>, is_prepend: bool)
    ensures
        final(b)@ == with_page_counted(old(b)@, views(page@), is_prepend),
{
    let cutoff = if is_prepend {
        b.last_markread_ts
    } else {
        None
    };
    let ghost all = views(page@);
    let mut activity = b.activity;
    let mut unread: u32 = b.unread_count;
    let mut i: usize = 0;
    while i < page.len()
        invariant
            i <= page@.len(),
            all == views(page@),
            (activity, unread) == counted(
                b@.activity,
                b@.unread_count,
                all.take(i as int),
                cutoff,
            ),
            b@ == old(b)@,
            cutoff == (if is_prepend {
                b@.last_markread_ts
            } else {
                None
            }),
        decreases page@.len() - i,
    {
        let line = &page[i];
        assert(all.take(i + 1).drop_last() =~= all.take(i as int));
        assert(all.take(i + 1).last() == line@);
        let old_enough = match cutoff {
            Some(time) => line.timestamp.at_or_before(time),
            None => false,
        };
        if line.displayed && !old_enough {
            if line.highlight {
                activity = BufferActivity::Highlight;
                if unread < u32::MAX {
                    unread = unread + 1;
                }
            } else if activity != BufferActivity::Highlight {
                activity = BufferActivity::Message;
                if unread < u32::MAX {
                    unread = unread + 1;
                }
            }
        }
        i = i + 1;
    }
    assert(all.take(i as int) =~= all);
    b.activity = activity;
    b.unread_count = unread;
}

fn put_page(b: &mut Buffer, page: Vec<Line>, is_prepend: bool) -> (added: usize)
    ensures
        final(b)@ == with_page(old(b)@, views(page@), is_prepend),
        added == (if is_prepend {
            unknown_lines(old(b)@.messages, views(page@)).len()
        } else {
            0
        }),
{
    if is_prepend {
        prepend_page(&mut b.messages, page)
    } else {
        append_page(&mut b.messages, page);
        0
    }
}

/// A buffer with a page of lines in it, counted as unread where they are.
pub open spec fn with_page_taken(b: BufferView, page: Seq<LineView>, is_prepend: bool, counts: bool) -> BufferView {
    with_page(
        if counts && !b.muted {
            with_page_counted(b, page, is_prepend)
        } else {
            b
        },
        page,
        is_prepend,
    )
}

fn take_page_in(b: &mut Buffer, page: Vec<Line>, is_prepend: bool, counts: bool) -> (added: usize)
    ensures
        final(b)@ == with_page_taken(old(b)@, views(page@), is_prepend, counts),
        added == (if is_prepend {
            unknown_lines(old(b)@.messages, views(page@)).len()
        } else {
            0
        }),
{
    if counts && !b.muted {
        count_page(b, &page, is_prepend);
    }
    put_page(b, page, is_prepend)
}

impl AppView {
    /// The state after a line came from a server that counts for itself.
    pub open spec fn plain_line_added(self, id: Seq<char>, line: LineView, ticks: u64) -> AppView {
        let on_view = self.selected_buffer_id == Some(id);
        match buffer_place(self.buffers, id) {
            Some(i) => {
                let b = self.buffers[i];
                let taken = self.with_buffer(i, with_added_line(b, line, on_view));
                if !on_view && !b.muted && line.displayed && line.highlight {
                    taken.notified(id, b.name, line.prefix, line.message, ticks)
                } else {
                    taken
                }
            },
            None => self,
        }
    }

    /// The state with a page of lines in a buffer.
    pub open spec fn page_put(self, id: Seq<char>, page: Seq<LineView>, is_prepend: bool) -> AppView {
        let counts = self.selected_buffer_id != Some(id) && self.loading_more_buffer_id != Some(id);
        self.changing(
            id,
            |b: BufferView| with_page_taken(b, page, is_prepend, counts),
        )
    }

    /// How many lines of a page a buffer did not have.
    pub open spec fn page_gain(self, id: Seq<char>, page: Seq<LineView>, is_prepend: bool) -> nat {
        match buffer_of(self.buffers, id) {
            Some(b) if is_prepend => unknown_lines(b.messages, page).len(),
            _ => 0,
        }
    }

    /// The state after a page of lines came.
    pub open spec fn page_loaded(self, id: Seq<char>, page: Seq<LineView>, is_prepend: bool) -> AppView {
        let put = self.page_put(id, page, is_prepend);
        if self.loading_more_buffer_id == Some(id) {
            let ended = put.loading_ended(id);
            if page.len() < LOAD_MORE_LINES || self.page_gain(id, page, is_prepend) == 0 {
                ended.exhausted_noted(id)
            } else {
                ended
            }
        } else {
            put
        }
    }
}

impl WeeChatApp {
    fn put_added_line(&mut self, i: usize, line: Line, on_view: bool)
        requires
            old(self).wf(),
            i < old(self).buffers@.len(),
        ensures
            final(self).wf(),
            final(self)@ == old(self)@.with_buffer(
                i as int,
                with_added_line(old(self)@.buffers[i as int], line@, on_view),
            ),
    {
        let ghost before = self.buffers@;
        assert(self@.buffers[i as int] == before[i as int]@);
        add_line(&mut self.buffers[i], line, on_view);
        proof {
            lemma_touched(before, self.buffers@, i as int);
        }
    }

    fn handle_plain_line(&mut self, id: &str, line: Line, clock: &Clock)
        requires
            old(self).wf(),
        ensures
            final(self).wf(),
            final(self)@ == old(self)@.plain_line_added(id@, line@, clock.ticks),
    {
        let on_view = opt_is(&self.selected_buffer_id, id);
        match self.buffer_idx_of(id) {
            Some(i) => {
                assert(self@.buffers[i as int] == self.buffers@[i as int]@);
                let alarms = !on_view && !self.buffers[i].muted && line.displayed && line.highlight;
                let name = self.buffers[i].name.clone();
                let prefix = line.prefix.clone();
                let message = line.message.clone();
                self.put_added_line(i, line, on_view);
                if alarms {
                    self.notify_highlight(
                        id,
                        name.as_str(),
                        prefix.as_str(),
                        message.as_str(),
                        clock.ticks,
                    );
                }
            },
            None => {},
        }
    }

    #[verifier::rlimit(40)]
    fn take_page(&mut self, id: &str, page: Vec<Line>, is_prepend: bool) -> (added: usize)
        requires
            old(self).wf(),
        ensures
            final(self).wf(),
            final(self)@ == old(self)@.page_put(id@, views(page@), is_prepend),
            added == old(self)@.page_gain(id@, views(page@), is_prepend),
    {
        let counts = !opt_is(&self.selected_buffer_id, id) && !opt_is(
            &self.loading_more_buffer_id,
            id,
        );
        match self.buffer_idx_of(id) {
            Some(i) => {
                let ghost before = self.buffers@;
                let ghost start = self@;
                assert(self@.buffers[i as int] == before[i as int]@);
                let added: usize = take_page_in(&mut self.buffers[i], page, is_prepend, counts);
                proof {
                    lemma_touched(before, self.buffers@, i as int);
                    assert(self@.profiles == start.profiles);
                }
                added
            },
            None => 0,
        }
    }

    fn handle_page(&mut self, id: &str, page: Vec<Line>, is_prepend: bool)
        requires
            old(self).wf(),
        ensures
            final(self).wf(),
            final(self)@ == old(self)@.page_loaded(id@, views(page@), is_prepend),
    {
        let is_load_more = opt_is(&self.loading_more_buffer_id, id);
        let received: usize = page.len();
        assert(views(page@).len() == received);
        let added: usize = self.take_page(id, page, is_prepend);
        if is_load_more {
            self.end_loading(id);
            if received < LOAD_MORE_LINES || added == 0 {
                self.note_exhausted(id);
            }
        }
    }
}

// ---------------------------------------------------------------------------
// All events
// ---------------------------------------------------------------------------

impl AppView {
    /// The state after an event of a connection.
    pub open spec fn handling(self, prefix: Seq<char>, event: BackendEvent, clock: Clock) -> AppView {
        match event {
            BackendEvent::Connected => self.came_up(prefix, clock.hm@),
            BackendEvent::Disconnected => self.went_down(prefix, clock.hm@),
            BackendEvent::AuthError(error) => self.connection_failed(prefix, error@, clock.hm@),
            BackendEvent::Error(error) => self.connection_failed(prefix, error@, clock.hm@),
            BackendEvent::ConnLog(message) => self.logged(prefix, clock.hms@, message@),
            BackendEvent::WeeChat(resp, entries) => self.responded(prefix, resp, entries@, clock),
            BackendEvent::BufferOpened(b) => self.buffer_opened(prefix, b@, clock.ticks),
            BackendEvent::BufferClosed { buffer_id } => self.buffer_closed(
                full_id(prefix, buffer_id@),
            ),
            BackendEvent::BuffersLoaded(list) => self.buffers_replaced(
                prefix,
                views(list@),
            ).any_chat_chosen(clock.ticks),
            BackendEvent::LineAdded { buffer_id, line } => self.plain_line_added(
                full_id(prefix, buffer_id@),
                line@,
                clock.ticks,
            ),
            BackendEvent::NicklistLoaded { buffer_id, nicks } => self.buffer_changed(
                full_id(prefix, buffer_id@),
                BufferChange::Nicklist(nicks),
            ),
            BackendEvent::NickAdded { buffer_id, nick } => self.buffer_changed(
                full_id(prefix, buffer_id@),
                BufferChange::NickAdded(nick),
            ),
            BackendEvent::NickRemoved { buffer_id, nick_name } => self.buffer_changed(
                full_id(prefix, buffer_id@),
                BufferChange::NickRemoved(nick_name),
            ),
            BackendEvent::NickAwayChanged { buffer_id, nick_name, away } => self.buffer_changed(
                full_id(prefix, buffer_id@),
                BufferChange::NickAway(nick_name, away),
            ),
            BackendEvent::TopicChanged { buffer_id, topic } => self.buffer_changed(
                full_id(prefix, buffer_id@),
                BufferChange::Topic(topic),
            ),
            BackendEvent::ActivityChanged { buffer_id, activity, unread_count, markread_ts } =>
                self.buffer_changed(
                full_id(prefix, buffer_id@),
                BufferChange::Activity(activity, unread_count, markread_ts),
            ),
            BackendEvent::LinesLoaded { buffer_id, lines, is_prepend } => self.page_loaded(
                full_id(prefix, buffer_id@),
                views(lines@),
                is_prepend,
            ),
            BackendEvent::BufferHidden { buffer_id, hidden } => self.buffer_changed(
                full_id(prefix, buffer_id@),
                BufferChange::Hidden(hidden),
            ),
        }
    }
}

impl WeeChatApp {
    /// Takes in an event of a connection.
    pub fn handle_event(&mut self, conn_prefix: &str, event: BackendEvent, clock: &Clock)
        requires
            old(self).wf(),
            match event {
                BackendEvent::WeeChat(resp, entries) => entries@.len() == body_of(resp).len(),
                _ => true,
            },
        ensures
            final(self).wf(),
            final(self)@ == old(self)@.handling(conn_prefix@, event, *clock),
    {
        match event {
            BackendEvent::Connected => {
                self.handle_connected(conn_prefix, clock);
            },
            BackendEvent::Disconnected => {
                self.handle_disconnected(conn_prefix, clock);
            },
            BackendEvent::AuthError(error) => {
                self.handle_failure(conn_prefix, error.as_str(), clock);
            },
            BackendEvent::Error(error) => {
                self.handle_failure(conn_prefix, error.as_str(), clock);
            },
            BackendEvent::ConnLog(message) => {
                self.log_conn_for(conn_prefix, message.as_str(), clock);
            },
            BackendEvent::WeeChat(resp, entries) => {
                self.process_response(conn_prefix, &resp, &entries, clock);
            },
            BackendEvent::BufferOpened(b) => {
                self.handle_buffer_opened(conn_prefix, b, clock);
            },
            BackendEvent::BufferClosed { buffer_id } => {
                let id = full_id_of(conn_prefix, buffer_id.as_str());
                self.handle_buffer_closed(id.as_str());
            },
            BackendEvent::BuffersLoaded(list) => {
                self.replace_buffers(conn_prefix, list);
                self.choose_any_chat(clock);
            },
            BackendEvent::LineAdded { buffer_id, line } => {
                let id = full_id_of(conn_prefix, buffer_id.as_str());
                self.handle_plain_line(id.as_str(), line, clock);
            },
            BackendEvent::NicklistLoaded { buffer_id, nicks } => {
                let id = full_id_of(conn_prefix, buffer_id.as_str());
                self.change_buffer(id.as_str(), BufferChange::Nicklist(nicks));
            },
            BackendEvent::NickAdded { buffer_id, nick } => {
                let id = full_id_of(conn_prefix, buffer_id.as_str());
                self.change_buffer(id.as_str(), BufferChange::NickAdded(nick));
            },
            BackendEvent::NickRemoved { buffer_id, nick_name } => {
                let id = full_id_of(conn_prefix, buffer_id.as_str());
                self.change_buffer(id.as_str(), BufferChange::NickRemoved(nick_name));
            },
            BackendEvent::NickAwayChanged { buffer_id, nick_name, away } => {
                let id = full_id_of(conn_prefix, buffer_id.as_str());
                self.change_buffer(id.as_str(), BufferChange::NickAway(nick_name, away));
            },
            BackendEvent::TopicChanged { buffer_id, topic } => {
                let id = full_id_of(conn_prefix, buffer_id.as_str());
                self.change_buffer(id.as_str(), BufferChange::Topic(topic));
            },
            BackendEvent::ActivityChanged { buffer_id, activity, unread_count, markread_ts } => {
                let id = full_id_of(conn_prefix, buffer_id.as_str());
                self.change_buffer(
                    id.as_str(),
                    BufferChange::Activity(activity, unread_count, markread_ts),
                );
            },
            BackendEvent::LinesLoaded { buffer_id, lines, is_prepend } => {
                let id = full_id_of(conn_prefix, buffer_id.as_str());
                self.handle_page(id.as_str(), lines, is_prepend);
            },
            BackendEvent::BufferHidden { buffer_id, hidden } => {
                let id = full_id_of(conn_prefix, buffer_id.as_str());
                self.change_buffer(id.as_str(), BufferChange::Hidden(hidden));
            },
        }
    }
}

} // verus!
