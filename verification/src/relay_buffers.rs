//! What the relay tells of buffers, their nicks and completions.
use vstd::prelude::*;
use vstd::string::StringExecFns;
use std::collections::VecDeque;
use crate::collections::TextSet;
use crate::json::{
    get, get_bool_or, get_id, get_object, get_str, get_text_or, json_object, json_signed, member,
    member_bool_or, member_id, member_object, member_text, member_text_or, Json, JsonMember,
};
use crate::lines::{body_len, body_of, object_at};
use crate::markers::MarkerView;
use crate::models::{copy_list, opt_view, Buffer, BufferActivity, BufferView, WeeChatResponse};
use crate::order::{
    apply_saved_buffer_order, connection_of, connection_part, natural_order, rows, saved_order_fits,
    sort_buffers, with_saved_order,
};
use crate::relay_counts::saved_marker;
use crate::relay_lines::{full_id, full_id_of};
use crate::rooms::{preferred_chat, preferred_chat_buffer_id};
use crate::seqs::{first_index, keep_items, lemma_filter_take, position_from, sorted_by, stable_sort, views};
use crate::state::{buffer_of, Action, ActionView, AppView, Clock, RelayEntry, WeeChatApp};
use crate::tags::{
    get_local, local_text, metadata, plugin_in, room_id_in, safe_profiles, text_or, thread_root_in,
};
use crate::text::{
    clone_opt, decimal, ends_with, join2, opt_is, opt_text, same_text, starts_with, str_ends_with,
    str_le, str_starts_with, text_le, texts, usize_text,
};

verus! {

// ---------------------------------------------------------------------------
// One buffer of the relay's list
// ---------------------------------------------------------------------------

/// The short name of a buffer.
pub open spec fn listed_name(obj: Seq<JsonMember>) -> Seq<char> {
    match member_text(obj, "short_name"@) {
        Some(name) => name,
        None => member_text_or(obj, "name"@, "unknown"@),
    }
}

/// The full name of a buffer, without its connection.
pub open spec fn listed_full_name(obj: Seq<JsonMember>) -> Seq<char> {
    member_text_or(obj, "name"@, listed_name(obj))
}

pub open spec fn listed_number(obj: Seq<JsonMember>) -> i32 {
    match member(obj, "number"@) {
        Some(value) => match json_signed(value) {
            Some(n) => n as i32,
            None => 0,
        },
        None => 0,
    }
}

/// The line up to which the relay says that a buffer was read.
pub open spec fn listed_read_id(obj: Seq<JsonMember>) -> Option<Seq<char>> {
    match member_id(obj, "last_read_line_id"@) {
        Some(id) => Some(id),
        None => match member_object(obj, "last_read_line"@) {
            Some(line) => member_id(line, "id"@),
            None => None,
        },
    }
}

/// What is kept of a buffer when the relay lists it again.
pub open spec fn kept_of(existing: Option<BufferView>) -> BufferView {
    match existing {
        Some(b) => b,
        None => BufferView {
            id: Seq::empty(),
            number: 0,
            name: Seq::empty(),
            full_name: Seq::empty(),
            plugin: Seq::empty(),
            kind: Seq::empty(),
            server: Seq::empty(),
            own_nick: Seq::empty(),
            messages: Seq::empty(),
            nicks: Seq::empty(),
            mention_candidates: Seq::empty(),
            matrix_member_profiles: Seq::empty(),
            activity: BufferActivity::Idle,
            unread_count: 0,
            last_read_id: None,
            last_markread_ts: None,
            topic: Seq::empty(),
            modes: Seq::empty(),
            hidden: false,
            muted: false,
            has_nicklist: false,
            matrix_room_id: None,
            matrix_predecessor_room_id: None,
            matrix_replacement_room_id: None,
            matrix_thread_root: None,
            matrix_upload_v1: false,
            matrix_avatar_mxc: None,
            visit_start_marker_id: None,
        },
    }
}

/// A buffer as the relay lists it, with what is known of it already.
pub open spec fn listed_buffer(
    prefix: Seq<char>,
    raw_id: Seq<char>,
    obj: Seq<JsonMember>,
    entry: RelayEntry,
    existing: Option<BufferView>,
    saved: Option<MarkerView>,
    muted: bool,
) -> BufferView {
    let kept = kept_of(existing);
    let plugin = plugin_in(obj);
    let meta = metadata(obj, Seq::empty(), Seq::empty(), listed_full_name(obj), plugin);
    BufferView {
        id: full_id(prefix, raw_id),
        number: listed_number(obj),
        name: listed_name(obj),
        full_name: full_id(prefix, listed_full_name(obj)),
        plugin,
        kind: meta.kind,
        server: meta.server,
        own_nick: text_or(local_text(obj, "nick"@), Seq::empty()),
        mention_candidates: match entry.mentions {
            Some(list) => views(list@),
            None => kept.mention_candidates,
        },
        matrix_member_profiles: match entry.members {
            Some(list) => safe_profiles(views(list@)),
            None => kept.matrix_member_profiles,
        },
        last_read_id: match listed_read_id(obj) {
            Some(id) => Some(id),
            None => match saved {
                Some(marker) => Some(marker.line_id),
                None => kept.last_read_id,
            },
        },
        last_markread_ts: None,
        topic: meta.topic,
        modes: meta.modes,
        hidden: member_bool_or(obj, "hidden"@, false),
        muted,
        has_nicklist: member_bool_or(obj, "nicklist"@, true) && meta.kind != "core"@ && meta.kind
            != "server"@,
        matrix_room_id: room_id_in(obj),
        matrix_thread_root: thread_root_in(obj),
        ..kept
    }
}

impl AppView {
    /// The buffer that an entry of the relay's list describes.
    pub open spec fn list_entry(self, prefix: Seq<char>, value: Json, entry: RelayEntry) -> Option<
        BufferView,
    > {
        match json_object(value) {
            Some(obj) => match member_id(obj, "id"@) {
                Some(raw_id) => {
                    let full_name = full_id(prefix, listed_full_name(obj));
                    Some(
                        listed_buffer(
                            prefix,
                            raw_id,
                            obj,
                            entry,
                            buffer_of(self.buffers, full_id(prefix, raw_id)),
                            saved_marker(self.read_markers, full_name),
                            self.muted_buffer_names.contains(full_name),
                        ),
                    )
                },
                None => None,
            },
            None => None,
        }
    }

    /// The buffers that the first `n` entries of the relay's list describe.
    pub open spec fn list_entries(
        self,
        prefix: Seq<char>,
        body: Seq<Json>,
        entries: Seq<RelayEntry>,
        n: nat,
    ) -> Seq<BufferView>
        decreases n,
    {
        if n == 0 || n > body.len() || n > entries.len() {
            Seq::empty()
        } else {
            let before = self.list_entries(prefix, body, entries, (n - 1) as nat);
            match self.list_entry(prefix, body[n - 1], entries[n - 1]) {
                Some(b) => before.push(b),
                None => before,
            }
        }
    }
}

fn listed_read_id_of(obj: &Vec<JsonMember>) -> (id: Option<String>)
    ensures
        opt_text(id) == listed_read_id(obj@),
{
    match get_id(obj, "last_read_line_id") {
        Some(id) => Some(id),
        None => match get_object(obj, "last_read_line") {
            Some(line) => get_id(line, "id"),
            None => None,
        },
    }
}

fn listed_number_of(obj: &Vec<JsonMember>) -> (number: i32)
    ensures
        number == listed_number(obj@),
{
    match get(obj, "number") {
        Some(value) => match value.as_i64() {
            Some(n) => #[verifier::truncate] (n as i32),
            None => 0,
        },
        None => 0,
    }
}

fn listed_name_of(obj: &Vec<JsonMember>) -> (name: String)
    ensures
        name@ == listed_name(obj@),
{
    match get_str(obj, "short_name") {
        Some(name) => name.to_owned(),
        None => get_text_or(obj, "name", "unknown"),
    }
}

fn blank_buffer() -> (b: Buffer)
    ensures
        b@ == kept_of(None),
{
    let b = Buffer {
        id: String::new(),
        number: 0,
        name: String::new(),
        full_name: String::new(),
        plugin: String::new(),
        kind: String::new(),
        server: String::new(),
        own_nick: String::new(),
        messages: VecDeque::new(),
        nicks: Vec::new(),
        mention_candidates: Vec::new(),
        matrix_member_profiles: Vec::new(),
        activity: BufferActivity::Idle,
        unread_count: 0,
        last_read_id: None,
        last_markread_ts: None,
        topic: String::new(),
        modes: String::new(),
        hidden: false,
        muted: false,
        has_nicklist: false,
        matrix_room_id: None,
        matrix_predecessor_room_id: None,
        matrix_replacement_room_id: None,
        matrix_thread_root: None,
        matrix_upload_v1: false,
        matrix_avatar_mxc: None,
        visit_start_marker_id: None,
    };
    assert(b@.messages =~= Seq::empty());
    assert(b@.nicks =~= Seq::empty());
    assert(b@.mention_candidates =~= Seq::empty());
    assert(b@.matrix_member_profiles =~= Seq::empty());
    b
}

fn build_listed_buffer(
    conn_prefix: &str,
    raw_id: &str,
    obj: &Vec<JsonMember>,
    entry: &RelayEntry,
    kept: Buffer,
    saved_line_id: Option<String>,
    muted: bool,
    Ghost(existing): Ghost<Option<BufferView>>,
    Ghost(saved): Ghost<Option<MarkerView>>,
) -> (b: Buffer)
    requires
        kept@ == kept_of(existing),
        opt_text(saved_line_id) == (match saved {
            Some(marker) => Some(marker.line_id),
            None => None,
        }),
    ensures
        b@ == listed_buffer(conn_prefix@, raw_id@, obj@, *entry, existing, saved, muted),
{
    let name = listed_name_of(obj);
    let raw_full_name = get_text_or(obj, "name", name.as_str());
    let plugin = WeeChatApp::extract_buffer_plugin(obj);
    let empty_topic = String::new();
    let empty_modes = String::new();
    proof {
        assert(empty_topic@ =~= Seq::empty());
        assert(empty_modes@ =~= Seq::empty());
    }
    let meta = WeeChatApp::extract_metadata(
        obj,
        empty_topic,
        empty_modes,
        raw_full_name.as_str(),
        plugin.as_str(),
    );
    let ids = WeeChatApp::extract_matrix_buffer_metadata(obj);
    let own_nick = match get_local(obj, "nick") {
        Some(nick) => nick.to_owned(),
        None => String::new(),
    };
    let mention_candidates = match &entry.mentions {
        Some(list) => copy_list(list),
        None => kept.mention_candidates,
    };
    let matrix_member_profiles = match &entry.members {
        Some(list) => WeeChatApp::extract_matrix_member_profiles(copy_list(list)),
        None => kept.matrix_member_profiles,
    };
    let last_read_id = match listed_read_id_of(obj) {
        Some(id) => Some(id),
        None => match saved_line_id {
            Some(id) => Some(id),
            None => kept.last_read_id,
        },
    };
    let has_nicklist = get_bool_or(obj, "nicklist", true) && !same_text(
        meta.kind.as_str(),
        "core",
    ) && !same_text(meta.kind.as_str(), "server");
    Buffer {
        id: full_id_of(conn_prefix, raw_id),
        number: listed_number_of(obj),
        name,
        full_name: full_id_of(conn_prefix, raw_full_name.as_str()),
        plugin,
        kind: meta.kind,
        server: meta.server,
        own_nick,
        messages: kept.messages,
        nicks: kept.nicks,
        mention_candidates,
        matrix_member_profiles,
        activity: kept.activity,
        unread_count: kept.unread_count,
        last_read_id,
        last_markread_ts: None,
        topic: meta.topic,
        modes: meta.modes,
        hidden: get_bool_or(obj, "hidden", false),
        muted,
        has_nicklist,
        matrix_room_id: ids.0,
        matrix_predecessor_room_id: kept.matrix_predecessor_room_id,
        matrix_replacement_room_id: kept.matrix_replacement_room_id,
        matrix_thread_root: ids.1,
        matrix_upload_v1: kept.matrix_upload_v1,
        matrix_avatar_mxc: kept.matrix_avatar_mxc,
        visit_start_marker_id: kept.visit_start_marker_id,
    }
}

impl WeeChatApp {
    fn list_entry_of(&self, conn_prefix: &str, resp: &WeeChatResponse, i: usize, entry: &RelayEntry) -> (b:
        Option<Buffer>)
        requires
            self.wf(),
            i < body_of(*resp).len(),
        ensures
            opt_view(b) == self@.list_entry(conn_prefix@, body_of(*resp)[i as int], *entry),
    {
        let obj = match object_at(resp, i) {
            Some(obj) => obj,
            None => {
                return None;
            },
        };
        let raw_id = match get_id(obj, "id") {
            Some(raw_id) => raw_id,
            None => {
                return None;
            },
        };
        let id = full_id_of(conn_prefix, raw_id.as_str());
        let name = listed_name_of(obj);
        let raw_full_name = get_text_or(obj, "name", name.as_str());
        let full_name = full_id_of(conn_prefix, raw_full_name.as_str());
        let ghost existing = buffer_of(self@.buffers, id@);
        let ghost saved = saved_marker(self@.read_markers, full_name@);
        let saved_line_id = match self.read_markers.get(full_name.as_str()) {
            Some(marker) => Some(marker.line_id.clone()),
            None => None,
        };
        let muted = self.muted_buffer_names.contains(full_name.as_str());
        let kept = match self.buffer_by_id(id.as_str()) {
            Some(b) => b.clone(),
            None => blank_buffer(),
        };
        Some(
            build_listed_buffer(
                conn_prefix,
                raw_id.as_str(),
                obj,
                entry,
                kept,
                saved_line_id,
                muted,
                Ghost(existing),
                Ghost(saved),
            ),
        )
    }

    fn list_buffers_of(&self, conn_prefix: &str, resp: &WeeChatResponse, entries: &Vec<RelayEntry>) -> (list:
        Vec<Buffer>)
        requires
            self.wf(),
            entries@.len() == body_of(*resp).len(),
        ensures
            views(list@) == self@.list_entries(
                conn_prefix@,
                body_of(*resp),
                entries@,
                body_of(*resp).len(),
            ),
    {
        let n: usize = body_len(resp);
        let mut list: Vec<Buffer> = Vec::new();
        let mut i: usize = 0;
        assert(views(list@) =~= self@.list_entries(conn_prefix@, body_of(*resp), entries@, 0));
        while i < n
            invariant
                i <= n,
                n == body_of(*resp).len(),
                entries@.len() == n,
                self.wf(),
                views(list@) == self@.list_entries(
                    conn_prefix@,
                    body_of(*resp),
                    entries@,
                    i as nat,
                ),
            decreases n - i,
        {
            let ghost before = list@;
            match self.list_entry_of(conn_prefix, resp, i, &entries[i]) {
                Some(b) => {
                    list.push(b);
                    assert(views(list@) =~= views(before).push(b@));
                },
                None => {},
            }
            i = i + 1;
        }
        list
    }
}

// ---------------------------------------------------------------------------
// Replacing the buffers of a connection
// ---------------------------------------------------------------------------

/// Whether a buffer belongs to a connection.
pub open spec fn belongs_to(id: Seq<char>, prefix: Seq<char>) -> bool {
    starts_with(id, prefix + "/"@)
}

/// The buffers of all other connections.
pub open spec fn without_connection(buffers: Seq<BufferView>, prefix: Seq<char>) -> Seq<BufferView> {
    buffers.filter(|b: BufferView| !belongs_to(b.id, prefix))
}

/// How many different servers the buffers belong to, apart from the core.
pub open spec fn network_count(buffers: Seq<BufferView>) -> nat {
    server_set(buffers).len()
}

pub open spec fn server_set(buffers: Seq<BufferView>) -> Set<Seq<char>>
    decreases buffers.len(),
{
    if buffers.len() == 0 {
        Set::empty()
    } else if buffers.last().kind != "core"@ {
        server_set(buffers.drop_last()).insert(buffers.last().server)
    } else {
        server_set(buffers.drop_last())
    }
}

pub open spec fn connection_set(buffers: Seq<BufferView>) -> Set<Seq<char>>
    decreases buffers.len(),
{
    if buffers.len() == 0 {
        Set::empty()
    } else {
        connection_set(buffers.drop_last()).insert(connection_of(buffers.last().id))
    }
}

/// The buffers in the order of their connections.
pub open spec fn by_connection(buffers: Seq<BufferView>) -> Seq<BufferView> {
    sorted_by(
        buffers,
        |a: BufferView, b: BufferView| text_le(connection_of(a.id), connection_of(b.id)),
    )
}

pub open spec fn ids_of(buffers: Seq<BufferView>) -> Seq<Seq<char>> {
    buffers.map_values(|b: BufferView| b.id)
}

pub open spec fn list_report(list: Seq<BufferView>) -> Seq<char> {
    "← GET /api/buffers  "@ + decimal(list.len()) + " buffers, "@ + decimal(network_count(list))
        + " network(s)"@
}

impl AppView {
    /// The state with the buffers of a connection replaced.
    pub open spec fn list_replaced(self, prefix: Seq<char>, list: Seq<BufferView>) -> AppView {
        AppView {
            buffers: without_connection(self.buffers, prefix) + natural_order(list),
            ..self
        }
    }

    /// The state with the saved order tried.
    pub open spec fn order_tried(self) -> AppView {
        let buffers = with_saved_order(self.buffers, self.buffer_order);
        AppView {
            buffers,
            buffer_order: if self.buffer_order.len() == 0 || saved_order_fits(
                self.buffers,
                self.buffer_order,
            ) {
                self.buffer_order
            } else {
                ids_of(rows(buffers))
            },
            ..self
        }
    }

    /// The state with the buffers of each connection together, where there are
    /// several connections.
    pub open spec fn connections_together(self) -> AppView {
        AppView {
            buffers: if connection_set(self.buffers).len() > 1 {
                by_connection(self.buffers)
            } else {
                self.buffers
            },
            ..self
        }
    }

    /// The room of the thread that is selected, where one is.
    pub open spec fn selected_thread_room(self) -> Option<Seq<char>> {
        match self.selected_buffer_id {
            Some(id) => match buffer_of(self.buffers, id) {
                Some(b) if b.is_thread() => b.matrix_room_id,
                _ => None,
            },
            None => None,
        }
    }

    /// The state with the room selected in place of one of its threads.
    pub open spec fn thread_unselected(self) -> AppView {
        match self.selected_thread_room() {
            Some(room_id) => AppView {
                selected_buffer_id: match first_index(
                    self.buffers,
                    |b: BufferView| !b.is_thread() && b.matrix_room_id == Some(room_id),
                ) {
                    Some(i) => Some(self.buffers[i].id),
                    None => None,
                },
                ..self
            },
            None => self,
        }
    }

    /// The state with a buffer selected that was waited for, once it is there.
    pub open spec fn listed_switch(self, ticks: u64) -> AppView {
        match self.pending_buffer_switch {
            Some(target) => match first_index(
                self.buffers,
                |b: BufferView| b.name == target || ends_with(b.full_name, target),
            ) {
                Some(i) => AppView { pending_buffer_switch: None, ..self }.selecting(
                    self.buffers[i].id,
                    ticks,
                ),
                None => self,
            },
            None => self,
        }
    }

    /// The state with a chat of a connection selected, where none is.
    pub open spec fn chat_chosen(self, prefix: Seq<char>, ticks: u64) -> AppView {
        if self.selected_buffer_id is Some {
            self
        } else {
            match preferred_chat(
                self.buffers.filter(|b: BufferView| belongs_to(b.id, prefix)),
                self.last_chat_buffer_name,
            ) {
                Some(id) => self.selecting(id, ticks),
                None => self,
            }
        }
    }

    pub open spec fn hotlist_asked(self, prefix: Seq<char>, hms: Seq<char>) -> AppView {
        let logged = self.logged(prefix, hms, "→ GET /api/hotlist"@);
        if logged.has_connection(prefix) {
            logged.doing(ActionView::FetchHotlist { conn: prefix })
        } else {
            logged
        }
    }

    /// The state after the relay listed buffers of a connection.
    pub open spec fn list_taken(self, prefix: Seq<char>, list: Seq<BufferView>, hms: Seq<char>, ticks: u64) -> AppView {
        if list.len() == 0 {
            self
        } else {
            self.logged(prefix, hms, list_report(list)).list_replaced(
                prefix,
                list,
            ).order_tried().connections_together().thread_unselected().listed_switch(
                ticks,
            ).chat_chosen(prefix, ticks).hotlist_asked(prefix, hms)
        }
    }

    /// The state after an answer with the list of buffers.
    pub open spec fn buffers_listed(
        self,
        prefix: Seq<char>,
        resp: WeeChatResponse,
        entries: Seq<RelayEntry>,
        hms: Seq<char>,
        ticks: u64,
    ) -> AppView {
        self.list_taken(
            prefix,
            self.list_entries(prefix, body_of(resp), entries, body_of(resp).len()),
            hms,
            ticks,
        )
    }
}

pub fn keep_other_connections(buffers: Vec<Buffer>, prefix: &str) -> (kept: Vec<Buffer>)
    ensures
        views(kept@) == without_connection(views(buffers@), prefix@),
{
    let head = join2(prefix, "/");
    let h = head.as_str();
    let keep = |b: &Buffer| -> (r: bool)
        ensures
            r == !belongs_to(b@.id, prefix@),
        { !str_starts_with(b.id.as_str(), h) };
    keep_items(buffers, keep, Ghost(|b: BufferView| !belongs_to(b.id, prefix@)))
}

fn count_networks(list: &Vec<Buffer>) -> (n: usize)
    ensures
        n == network_count(views(list@)),
{
    let ghost all = views(list@);
    let mut servers = TextSet::new();
    let mut i: usize = 0;
    assert(servers@ =~= server_set(all.take(0)));
    while i < list.len()
        invariant
            i <= list@.len(),
            all == views(list@),
            servers@ == server_set(all.take(i as int)),
        decreases list@.len() - i,
    {
        assert(all.take(i + 1).drop_last() =~= all.take(i as int));
        assert(all.take(i + 1).last() == list@[i as int]@);
        if !same_text(list[i].kind.as_str(), "core") {
            servers.insert(list[i].server.clone());
        }
        i = i + 1;
    }
    assert(all.take(i as int) =~= all);
    servers.len()
}

fn count_connections(list: &Vec<Buffer>) -> (n: usize)
    ensures
        n == connection_set(views(list@)).len(),
{
    let ghost all = views(list@);
    let mut connections = TextSet::new();
    let mut i: usize = 0;
    assert(connections@ =~= connection_set(all.take(0)));
    while i < list.len()
        invariant
            i <= list@.len(),
            all == views(list@),
            connections@ == connection_set(all.take(i as int)),
        decreases list@.len() - i,
    {
        assert(all.take(i + 1).drop_last() =~= all.take(i as int));
        assert(all.take(i + 1).last() == list@[i as int]@);
        connections.insert(connection_part(list[i].id.as_str()));
        i = i + 1;
    }
    assert(all.take(i as int) =~= all);
    connections.len()
}

pub fn row_ids(buffers: &Vec<Buffer>) -> (ids: Vec<String>)
    ensures
        texts(ids@) == ids_of(rows(views(buffers@))),
{
    let ghost all = views(buffers@);
    let ghost p = |b: BufferView| !b.is_thread();
    let mut ids: Vec<String> = Vec::new();
    let mut i: usize = 0;
    proof {
        reveal(Seq::filter);
        assert(texts(ids@) =~= ids_of(all.take(0).filter(p)));
    }
    while i < buffers.len()
        invariant
            i <= buffers@.len(),
            all == views(buffers@),
            p == (|b: BufferView| !b.is_thread()),
            texts(ids@) == ids_of(all.take(i as int).filter(p)),
        decreases buffers@.len() - i,
    {
        let ghost before = ids@;
        proof {
            lemma_filter_take(all, i as int, p);
            assert(all[i as int] == buffers@[i as int]@);
        }
        if !buffers[i].is_matrix_thread() {
            ids.push(buffers[i].id.clone());
            assert(texts(ids@) =~= texts(before).push(all[i as int].id));
            assert(ids_of(all.take(i as int).filter(p).push(all[i as int])) =~= ids_of(
                all.take(i as int).filter(p),
            ).push(all[i as int].id));
        }
        i = i + 1;
    }
    assert(all.take(i as int) =~= all);
    ids
}

impl WeeChatApp {
    fn replace_list(&mut self, conn_prefix: &str, list: Vec<Buffer>)
        ensures
            final(self).wf(),
            final(self)@ == old(self)@.list_replaced(conn_prefix@, views(list@)),
    {
        let ghost listed = views(list@);
        let mut sorted = list;
        sort_buffers(&mut sorted);
        let mut all: Vec<Buffer> = Vec::new();
        core::mem::swap(&mut all, &mut self.buffers);
        let mut kept = keep_other_connections(all, conn_prefix);
        let ghost others = views(kept@);
        let ghost kept_seq = kept@;
        let ghost sorted_seq = sorted@;
        kept.append(&mut sorted);
        assert(views(kept@) =~= others + views(sorted_seq));
        self.buffers = kept;
        self.rebuild_buffer_idx();
    }

    #[verifier::rlimit(40)]
    fn try_order(&mut self)
        ensures
            final(self).wf(),
            final(self)@ == old(self)@.order_tried(),
    {
        if self.buffer_order.len() == 0 {
            self.rebuild_buffer_idx();
            return ;
        }
        let mut all = self.take_buffers();
        let applied = apply_saved_buffer_order(&mut all, &self.buffer_order);
        if !applied {
            self.set_order(row_ids(&all));
        }
        self.put_buffers(all);
    }

    fn set_order(&mut self, order: Vec<String>)
        ensures
            final(self)@ == (AppView { buffer_order: texts(order@), ..old(self)@ }),
    {
        let ghost start = self@;
        self.buffer_order = order;
        assert(self@.profiles == start.profiles);
    }

    fn group_connections(&mut self)
        requires
            old(self).wf(),
        ensures
            final(self).wf(),
            final(self)@ == old(self)@.connections_together(),
    {
        if count_connections(&self.buffers) > 1 {
            let mut all: Vec<Buffer> = Vec::new();
            core::mem::swap(&mut all, &mut self.buffers);
            let compare = |a: &Buffer, b: &Buffer| -> (r: bool)
                ensures
                    r == text_le(connection_of(a@.id), connection_of(b@.id)),
                {
                    let x = connection_part(a.id.as_str());
                    let y = connection_part(b.id.as_str());
                    str_le(x.as_str(), y.as_str())
                };
            self.buffers = stable_sort(
                all,
                compare,
                Ghost(
                    |a: BufferView, b: BufferView|
                        text_le(connection_of(a.id), connection_of(b.id)),
                ),
            );
            self.rebuild_buffer_idx();
        }
    }

    fn selected_thread_room_of(&self) -> (room_id: Option<String>)
        requires
            self.wf(),
        ensures
            opt_text(room_id) == self@.selected_thread_room(),
    {
        match &self.selected_buffer_id {
            Some(id) => match self.buffer_by_id(id.as_str()) {
                Some(b) => if b.is_matrix_thread() {
                    clone_opt(&b.matrix_room_id)
                } else {
                    None
                },
                None => None,
            },
            None => None,
        }
    }

    fn unselect_thread(&mut self)
        requires
            old(self).wf(),
        ensures
            final(self).wf(),
            final(self)@ == old(self)@.thread_unselected(),
    {
        match self.selected_thread_room_of() {
            Some(room_id) => {
                let room = room_id.as_str();
                let found = |b: &Buffer| -> (r: bool)
                    ensures
                        r == (!b@.is_thread() && b@.matrix_room_id == Some(room@)),
                    { !b.is_matrix_thread() && opt_is(&b.matrix_room_id, room) };
                let at = position_from(
                    self.buffers.as_slice(),
                    0,
                    found,
                    Ghost(|b: BufferView| !b.is_thread() && b.matrix_room_id == Some(room@)),
                );
                let selected = match at {
                    Some(i) => {
                        assert(self@.buffers[i as int] == self.buffers@[i as int]@);
                        Some(self.buffers[i].id.clone())
                    },
                    None => None,
                };
                self.selected_buffer_id = selected;
            },
            None => {},
        }
    }

    pub(crate) fn clear_pending_switch(&mut self)
        ensures
            final(self)@ == (AppView { pending_buffer_switch: None, ..old(self)@ }),
            old(self).wf() ==> final(self).wf(),
    {
        let ghost start = self@;
        self.pending_buffer_switch = None;
        assert(self@.profiles == start.profiles);
    }

    fn switch_to_listed(&mut self, clock: &Clock)
        requires
            old(self).wf(),
        ensures
            final(self).wf(),
            final(self)@ == old(self)@.listed_switch(clock.ticks),
    {
        let target = match &self.pending_buffer_switch {
            Some(target) => target.clone(),
            None => {
                return ;
            },
        };
        let t = target.as_str();
        let found = |b: &Buffer| -> (r: bool)
            ensures
                r == (b@.name == t@ || ends_with(b@.full_name, t@)),
            { same_text(b.name.as_str(), t) || str_ends_with(b.full_name.as_str(), t) };
        match position_from(
            self.buffers.as_slice(),
            0,
            found,
            Ghost(|b: BufferView| b.name == t@ || ends_with(b.full_name, t@)),
        ) {
            Some(i) => {
                assert(self@.buffers[i as int] == self.buffers@[i as int]@);
                let id = self.buffers[i].id.clone();
                self.clear_pending_switch();
                self.select_buffer(id, clock);
            },
            None => {},
        }
    }

    fn preferred_of_connection(&self, conn_prefix: &str) -> (id: Option<String>)
        ensures
            opt_text(id) == preferred_chat(
                self@.buffers.filter(|b: BufferView| belongs_to(b.id, conn_prefix@)),
                self@.last_chat_buffer_name,
            ),
    {
        let head = join2(conn_prefix, "/");
        let h = head.as_str();
        let keep = |b: &Buffer| -> (r: bool)
            ensures
                r == belongs_to(b@.id, conn_prefix@),
            { str_starts_with(b.id.as_str(), h) };
        let own = keep_items(
            copy_list(&self.buffers),
            keep,
            Ghost(|b: BufferView| belongs_to(b.id, conn_prefix@)),
        );
        preferred_chat_buffer_id(
            &own,
            match &self.last_chat_buffer_name {
                Some(name) => Some(name.as_str()),
                None => None,
            },
        )
    }

    fn choose_chat(&mut self, conn_prefix: &str, clock: &Clock)
        requires
            old(self).wf(),
        ensures
            final(self).wf(),
            final(self)@ == old(self)@.chat_chosen(conn_prefix@, clock.ticks),
    {
        if self.selected_buffer_id.is_some() {
            return ;
        }
        match self.preferred_of_connection(conn_prefix) {
            Some(id) => {
                self.select_buffer(id, clock);
            },
            None => {},
        }
    }

    fn ask_hotlist(&mut self, conn_prefix: &str, clock: &Clock)
        requires
            old(self).wf(),
        ensures
            final(self).wf(),
            final(self)@ == old(self)@.hotlist_asked(conn_prefix@, clock.hms@),
    {
        self.log_conn_for(conn_prefix, "→ GET /api/hotlist", clock);
        if self.connection_idx_of(conn_prefix).is_some() {
            self.act(Action::FetchHotlist { conn: conn_prefix.to_owned() });
        }
    }

    fn report_list(&mut self, conn_prefix: &str, list: &Vec<Buffer>, clock: &Clock)
        ensures
            final(self)@ == old(self)@.logged(
                conn_prefix@,
                clock.hms@,
                list_report(views(list@)),
            ),
            old(self).wf() ==> final(self).wf(),
    {
        let mut entry = "← GET /api/buffers  ".to_owned();
        entry.append(usize_text(list.len()).as_str());
        entry.append(" buffers, ");
        entry.append(usize_text(count_networks(list)).as_str());
        entry.append(" network(s)");
        self.log_conn_for(conn_prefix, entry.as_str(), clock);
    }

    /// Takes in the list of buffers of a connection.
    pub fn handle_buffer_list(
        &mut self,
        conn_prefix: &str,
        resp: &WeeChatResponse,
        entries: &Vec<RelayEntry>,
        clock: &Clock,
    )
        requires
            old(self).wf(),
            entries@.len() == body_of(*resp).len(),
        ensures
            final(self).wf(),
            final(self)@ == old(self)@.buffers_listed(
                conn_prefix@,
                *resp,
                entries@,
                clock.hms@,
                clock.ticks,
            ),
    {
        let list = self.list_buffers_of(conn_prefix, resp, entries);
        if list.len() == 0 {
            assert(views(list@).len() == 0);
            return ;
        }
        assert(views(list@).len() > 0);
        self.report_list(conn_prefix, &list, clock);
        self.replace_list(conn_prefix, list);
        self.try_order();
        self.group_connections();
        self.unselect_thread();
        self.switch_to_listed(clock);
        self.choose_chat(conn_prefix, clock);
        self.ask_hotlist(conn_prefix, clock);
    }
}

} // verus!
