//! Everything that a connection reports.
use vstd::prelude::*;
use std::collections::VecDeque;
use crate::json::{get_str, json_object, member_text, Json};
use crate::lines::body_of;
use crate::models::{opt_view, Buffer, BufferActivity, BufferView, Nick, NickView, WeeChatResponse};
use crate::relay_details::{
    change_nick, has_nick, join_nick, nick_changed, nick_joined, nick_left, nick_position,
    remove_nick, with_nicks,
};
use crate::relay_lines::{full_id, full_id_of};
use crate::seqs::{first_index, keep_items, position_from, sorted_by, stable_sort, views};
use crate::state::{
    buffer_of, lemma_touched, Action, ActionView, AppView, Clock, RelayEntry, WeeChatApp,
};
use crate::tags::nick_in;
use crate::text::{
    ascii_lowercase, chars_of, contains, decimal_int, i64_text, lowercase, opt_text, parse_u64,
    parse_unsigned, rsplit_once, same_text, str_contains, str_le, str_rsplit_once, str_strip_prefix,
    strip_prefix, text_le, to_ascii_lower, to_lowercase,
};
use crate::time::Timestamp;

verus! {

// ---------------------------------------------------------------------------
// Changes to one buffer
// ---------------------------------------------------------------------------

/// A change to one buffer.
#[derive(Debug)]
pub enum BufferChange {
    Hidden(bool),
    Cleared,
    /// A nick comes, in order.
    NickJoined(Nick),
    NickChanged(Nick),
    NickLeft(String),
    /// All nicks come, in the order of rank and name.
    Nicklist(Vec<Nick>),
    /// A nick comes, behind the others.
    NickAdded(Nick),
    /// A nick goes, whatever the case of its letters.
    NickRemoved(String),
    NickAway(String, bool),
    Topic(String),
    Activity(BufferActivity, u32, Option<Timestamp>),
}

/// The letters of two texts are the same apart from their case.
pub open spec fn same_letters(a: Seq<char>, b: Seq<char>) -> bool {
    ascii_lowercase(a) == ascii_lowercase(b)
}

/// The rank that a prefix shows.
pub open spec fn prefix_rank(prefix: Seq<char>) -> int {
    if contains(prefix, "~"@) {
        0
    } else if contains(prefix, "&"@) {
        1
    } else if contains(prefix, "@"@) {
        2
    } else if contains(prefix, "%"@) {
        3
    } else if contains(prefix, "+"@) {
        4
    } else {
        5
    }
}

/// By rank, then by name in either case.
pub open spec fn nick_rank_le(a: NickView, b: NickView) -> bool {
    if prefix_rank(a.prefix) != prefix_rank(b.prefix) {
        prefix_rank(a.prefix) < prefix_rank(b.prefix)
    } else {
        text_le(lowercase(a.name), lowercase(b.name))
    }
}

pub open spec fn nicks_by_rank(nicks: Seq<NickView>) -> Seq<NickView> {
    sorted_by(nicks, |a: NickView, b: NickView| nick_rank_le(a, b))
}

/// A buffer after a change.
pub open spec fn changed(b: BufferView, change: BufferChange) -> BufferView {
    match change {
        BufferChange::Hidden(hidden) => BufferView { hidden, ..b },
        BufferChange::Cleared => BufferView {
            messages: Seq::empty(),
            last_read_id: None,
            visit_start_marker_id: None,
            ..b
        },
        BufferChange::NickJoined(nick) => with_nicks(b, nick_joined(b.nicks, nick@)),
        BufferChange::NickChanged(nick) => with_nicks(b, nick_changed(b.nicks, nick@)),
        BufferChange::NickLeft(name) => with_nicks(b, nick_left(b.nicks, name@)),
        BufferChange::Nicklist(nicks) => with_nicks(b, nicks_by_rank(views(nicks@))),
        BufferChange::NickAdded(nick) => if has_nick(b.nicks, nick@.name) {
            b
        } else {
            with_nicks(b, b.nicks.push(nick@))
        },
        BufferChange::NickRemoved(name) => with_nicks(
            b,
            b.nicks.filter(|n: NickView| !same_letters(n.name, name@)),
        ),
        BufferChange::NickAway(name, away) => match first_index(
            b.nicks,
            |n: NickView| same_letters(n.name, name@),
        ) {
            Some(i) => with_nicks(b, b.nicks.update(i, NickView { away, ..b.nicks[i] })),
            None => b,
        },
        BufferChange::Topic(topic) => BufferView { topic: topic@, ..b },
        BufferChange::Activity(activity, unread_count, markread) => BufferView {
            activity,
            unread_count,
            last_markread_ts: match markread {
                Some(time) => Some(time),
                None => b.last_markread_ts,
            },
            ..b
        },
    }
}

pub fn has_same_letters(a: &str, b: &str) -> (yes: bool)
    ensures
        yes == same_letters(a@, b@),
{
    let x = chars_of(a);
    let y = chars_of(b);
    let ghost la = ascii_lowercase(a@);
    let ghost lb = ascii_lowercase(b@);
    if x.len() != y.len() {
        assert(la.len() != lb.len());
        return false;
    }
    let mut i: usize = 0;
    while i < x.len()
        invariant
            i <= x@.len(),
            x@ == a@,
            y@ == b@,
            x@.len() == y@.len(),
            la == ascii_lowercase(a@),
            lb == ascii_lowercase(b@),
            forall|j: int| 0 <= j < i ==> la[j] == lb[j],
        decreases x@.len() - i,
    {
        if to_ascii_lower(x[i]) != to_ascii_lower(y[i]) {
            assert(la[i as int] != lb[i as int]);
            return false;
        }
        i = i + 1;
    }
    assert(la =~= lb);
    true
}

fn rank_of(prefix: &str) -> (rank: u8)
    ensures
        rank == prefix_rank(prefix@),
{
    if str_contains(prefix, "~") {
        0
    } else if str_contains(prefix, "&") {
        1
    } else if str_contains(prefix, "@") {
        2
    } else if str_contains(prefix, "%") {
        3
    } else if str_contains(prefix, "+") {
        4
    } else {
        5
    }
}

/// Puts nicks in the order of their ranks and names.
pub fn sort_nicks_by_rank(nicks: Vec<Nick>) -> (sorted: Vec<Nick>)
    ensures
        views(sorted@) == nicks_by_rank(views(nicks@)),
{
    let compare = |a: &Nick, b: &Nick| -> (r: bool)
        ensures
            r == nick_rank_le(a@, b@),
        {
            let ra: u8 = rank_of(a.prefix.as_str());
            let rb: u8 = rank_of(b.prefix.as_str());
            if ra != rb {
                ra < rb
            } else {
                let x = to_lowercase(a.name.as_str());
                let y = to_lowercase(b.name.as_str());
                str_le(x.as_str(), y.as_str())
            }
        };
    stable_sort(nicks, compare, Ghost(|a: NickView, b: NickView| nick_rank_le(a, b)))
}

fn clear_lines(b: &mut Buffer)
    ensures
        final(b)@ == changed(old(b)@, BufferChange::Cleared),
{
    b.messages = VecDeque::new();
    assert(views(b.messages@) =~= Seq::empty());
    b.last_read_id = None;
    b.visit_start_marker_id = None;
}

fn add_nick(b: &mut Buffer, nick: Nick)
    ensures
        final(b)@ == changed(old(b)@, BufferChange::NickAdded(nick)),
{
    if nick_position(&b.nicks, nick.name.as_str()).is_none() {
        let ghost before = b.nicks@;
        b.nicks.push(nick);
        assert(views(b.nicks@) =~= views(before).push(nick@));
    }
}

fn remove_nick_letters(b: &mut Buffer, name: String)
    ensures
        final(b)@ == changed(old(b)@, BufferChange::NickRemoved(name)),
{
    let mut nicks: Vec<Nick> = Vec::new();
    core::mem::swap(&mut nicks, &mut b.nicks);
    let text = name.as_str();
    let keep = |n: &Nick| -> (r: bool)
        ensures
            r == !same_letters(n@.name, text@),
        { !has_same_letters(n.name.as_str(), text) };
    b.nicks = keep_items(nicks, keep, Ghost(|n: NickView| !same_letters(n.name, name@)));
}

fn set_away(b: &mut Buffer, name: String, away: bool)
    ensures
        final(b)@ == changed(old(b)@, BufferChange::NickAway(name, away)),
{
    let text = name.as_str();
    let found = |n: &Nick| -> (r: bool)
        ensures
            r == same_letters(n@.name, text@),
        { has_same_letters(n.name.as_str(), text) };
    match position_from(
        b.nicks.as_slice(),
        0,
        found,
        Ghost(|n: NickView| same_letters(n.name, name@)),
    ) {
        Some(i) => {
            let ghost before = b.nicks@;
            let mut nick = b.nicks[i].clone();
            nick.away = away;
            b.nicks[i] = nick;
            assert(views(before)[i as int] == before[i as int]@);
            assert(views(b.nicks@) =~= views(before).update(i as int, nick@));
        },
        None => {},
    }
}

/// Makes a change to a buffer.
pub fn apply_change(b: &mut Buffer, change: BufferChange)
    ensures
        final(b)@ == changed(old(b)@, change),
{
    match change {
        BufferChange::Hidden(hidden) => {
            b.hidden = hidden;
        },
        BufferChange::Cleared => {
            clear_lines(b);
        },
        BufferChange::NickJoined(nick) => {
            join_nick(b, nick);
        },
        BufferChange::NickChanged(nick) => {
            change_nick(b, nick);
        },
        BufferChange::NickLeft(name) => {
            remove_nick(b, name.as_str());
        },
        BufferChange::Nicklist(nicks) => {
            b.nicks = sort_nicks_by_rank(nicks);
        },
        BufferChange::NickAdded(nick) => {
            add_nick(b, nick);
        },
        BufferChange::NickRemoved(name) => {
            remove_nick_letters(b, name);
        },
        BufferChange::NickAway(name, away) => {
            set_away(b, name, away);
        },
        BufferChange::Topic(topic) => {
            b.topic = topic;
        },
        BufferChange::Activity(activity, unread_count, markread) => {
            b.activity = activity;
            b.unread_count = unread_count;
            match markread {
                Some(time) => {
                    b.last_markread_ts = Some(time);
                },
                None => {},
            }
        },
    }
}

impl AppView {
    /// The state with a change made to a buffer, where it is there.
    pub open spec fn buffer_changed(self, id: Seq<char>, change: BufferChange) -> AppView {
        self.changing(id, |b: BufferView| changed(b, change))
    }

    /// The state with a change made to the buffer of an answer.
    pub open spec fn numbered_changed(self, prefix: Seq<char>, buffer: Option<i64>, change: BufferChange) -> AppView {
        match buffer {
            Some(i) => self.buffer_changed(full_id(prefix, decimal_int(i as int)), change),
            None => self,
        }
    }
}

impl WeeChatApp {
    /// Makes a change to a buffer, where it is there.
    pub fn change_buffer(&mut self, id: &str, change: BufferChange)
        requires
            old(self).wf(),
        ensures
            final(self).wf(),
            final(self)@ == old(self)@.buffer_changed(id@, change),
    {
        match self.buffer_idx_of(id) {
            Some(i) => {
                let ghost before = self.buffers@;
                assert(self@.buffers[i as int] == before[i as int]@);
                apply_change(&mut self.buffers[i], change);
                proof {
                    lemma_touched(before, self.buffers@, i as int);
                }
            },
            None => {},
        }
    }

    fn change_numbered(&mut self, conn_prefix: &str, buffer: Option<i64>, change: BufferChange)
        requires
            old(self).wf(),
        ensures
            final(self).wf(),
            final(self)@ == old(self)@.numbered_changed(conn_prefix@, buffer, change),
    {
        match buffer {
            Some(i) => {
                let raw_id = i64_text(i);
                let id = full_id_of(conn_prefix, raw_id.as_str());
                self.change_buffer(id.as_str(), change);
            },
            None => {},
        }
    }
}

// ---------------------------------------------------------------------------
// Events of the relay
// ---------------------------------------------------------------------------

/// What a request of the relay was about, as its id tells.
pub ghost enum RouteView {
    Completion(u64),
    List,
    Hotlist,
    Lines(Seq<char>, Option<usize>),
    Nicks(Seq<char>),
    Info(Seq<char>),
    Other,
}

#[derive(Debug)]
pub enum Route {
    Completion(u64),
    List,
    Hotlist,
    Lines(String, Option<usize>),
    Nicks(String),
    Info(String),
    Other,
}

impl View for Route {
    type V = RouteView;

    open spec fn view(&self) -> RouteView {
        match self {
            Route::Completion(n) => RouteView::Completion(*n),
            Route::List => RouteView::List,
            Route::Hotlist => RouteView::Hotlist,
            Route::Lines(id, count) => RouteView::Lines(id@, *count),
            Route::Nicks(id) => RouteView::Nicks(id@),
            Route::Info(id) => RouteView::Info(id@),
            Route::Other => RouteView::Other,
        }
    }
}

/// The number of a request for completions.
pub open spec fn completion_number(id: Seq<char>) -> Option<u64> {
    match strip_prefix(id, "_completion:"@) {
        Some(rest) => match parse_unsigned(rest, u64::MAX as nat) {
            Some(n) => Some(n as u64),
            None => None,
        },
        None => None,
    }
}

/// The buffer and the size of a request for lines.
pub open spec fn lines_route(request: Seq<char>) -> RouteView {
    match rsplit_once(request, ":"@) {
        Some((id, count)) => match parse_unsigned(count, usize::MAX as nat) {
            Some(n) => RouteView::Lines(id, Some(n as usize)),
            None => RouteView::Lines(request, None),
        },
        None => RouteView::Lines(request, None),
    }
}

pub open spec fn route(id: Seq<char>) -> RouteView {
    if completion_number(id) is Some {
        RouteView::Completion(completion_number(id)->0)
    } else if id == "_list_buffers"@ {
        RouteView::List
    } else if id == "_hotlist"@ {
        RouteView::Hotlist
    } else if strip_prefix(id, "_buffer_lines:"@) is Some {
        lines_route(strip_prefix(id, "_buffer_lines:"@)->0)
    } else if strip_prefix(id, "_nicks:"@) is Some {
        RouteView::Nicks(strip_prefix(id, "_nicks:"@)->0)
    } else if strip_prefix(id, "_buffer_info:"@) is Some {
        RouteView::Info(strip_prefix(id, "_buffer_info:"@)->0)
    } else {
        RouteView::Other
    }
}

fn completion_number_of(id: &str) -> (number: Option<u64>)
    ensures
        number == completion_number(id@),
{
    match str_strip_prefix(id, "_completion:") {
        Some(rest) => parse_u64(rest.as_str(), u64::MAX),
        None => None,
    }
}

fn lines_route_of(request: String) -> (found: Route)
    ensures
        found@ == lines_route(request@),
{
    match str_rsplit_once(request.as_str(), ":") {
        Some((id, count)) => match parse_u64(count.as_str(), usize::MAX as u64) {
            Some(n) => Route::Lines(id, Some(n as usize)),
            None => Route::Lines(request, None),
        },
        None => Route::Lines(request, None),
    }
}

/// What a request of the relay was about.
pub fn route_of(id: &str) -> (found: Route)
    ensures
        found@ == route(id@),
{
    match completion_number_of(id) {
        Some(n) => {
            return Route::Completion(n);
        },
        None => {},
    }
    if same_text(id, "_list_buffers") {
        return Route::List;
    }
    if same_text(id, "_hotlist") {
        return Route::Hotlist;
    }
    match str_strip_prefix(id, "_buffer_lines:") {
        Some(request) => {
            return lines_route_of(request);
        },
        None => {},
    }
    match str_strip_prefix(id, "_nicks:") {
        Some(raw_id) => {
            return Route::Nicks(raw_id);
        },
        None => {},
    }
    match str_strip_prefix(id, "_buffer_info:") {
        Some(raw_id) => Route::Info(raw_id),
        None => Route::Other,
    }
}

/// The nick that an answer describes.
pub open spec fn body_nick(body: Option<Json>) -> Option<NickView> {
    match body {
        Some(value) => match json_object(value) {
            Some(obj) => nick_in(obj),
            None => None,
        },
        None => None,
    }
}

/// The name that an answer gives.
pub open spec fn body_name(body: Option<Json>) -> Option<Seq<char>> {
    match body {
        Some(value) => match json_object(value) {
            Some(obj) => member_text(obj, "name"@),
            None => None,
        },
        None => None,
    }
}

fn body_nick_of(body: &Option<Json>) -> (nick: Option<Nick>)
    ensures
        opt_view(nick) == body_nick(*body),
{
    match body {
        Some(value) => match value.as_object() {
            Some(obj) => WeeChatApp::parse_nick_obj(obj),
            None => None,
        },
        None => None,
    }
}

fn body_name_of(body: &Option<Json>) -> (name: Option<String>)
    ensures
        opt_text(name) == body_name(*body),
{
    match body {
        Some(value) => match value.as_object() {
            Some(obj) => match get_str(obj, "name") {
                Some(name) => Some(name.to_owned()),
                None => None,
            },
            None => None,
        },
        None => None,
    }
}

/// Whether the relay has to list its buffers again after an event.
pub open spec fn lists_again(event: Seq<char>) -> bool {
    event == "buffer_opened"@ || event == "buffer_closed"@ || event == "buffer_renamed"@ || event
        == "buffer_localvar_added"@ || event == "buffer_localvar_changed"@ || event
        == "buffer_localvar_removed"@
}

fn does_list_again(event: &str) -> (yes: bool)
    ensures
        yes == lists_again(event@),
{
    same_text(event, "buffer_opened") || same_text(event, "buffer_closed") || same_text(
        event,
        "buffer_renamed",
    ) || same_text(event, "buffer_localvar_added") || same_text(event, "buffer_localvar_changed")
        || same_text(event, "buffer_localvar_removed")
}

impl AppView {
    /// The state with a request made to a connection that runs.
    pub open spec fn asking(self, prefix: Seq<char>, action: ActionView) -> AppView {
        if self.has_connection(prefix) {
            self.doing(action)
        } else {
            self
        }
    }

    /// The state with a buffer of an answer no longer noted as read.
    pub open spec fn numbered_unread(self, prefix: Seq<char>, buffer: Option<i64>) -> AppView {
        match buffer {
            Some(i) => {
                let id = full_id(prefix, decimal_int(i as int));
                match buffer_of(self.buffers, id) {
                    Some(b) => self.read_forgotten(id, b.full_name),
                    None => AppView {
                        cleared_buffer_ids: self.cleared_buffer_ids.remove(id),
                        ..self
                    },
                }
            },
            None => self,
        }
    }

    pub open spec fn nick_event(
        self,
        prefix: Seq<char>,
        event: Seq<char>,
        resp: WeeChatResponse,
    ) -> AppView {
        let id = match resp.buffer_id {
            Some(i) => Some(full_id(prefix, decimal_int(i as int))),
            None => None,
        };
        if event == "nicklist_nick_added"@ {
            match (id, body_nick(resp.body)) {
                (Some(id), Some(nick)) => self.changing(
                    id,
                    |b: BufferView| with_nicks(b, nick_joined(b.nicks, nick)),
                ),
                _ => self,
            }
        } else if event == "nicklist_nick_removing"@ {
            match (id, body_name(resp.body)) {
                (Some(id), Some(name)) => self.changing(
                    id,
                    |b: BufferView| with_nicks(b, nick_left(b.nicks, name)),
                ),
                _ => self,
            }
        } else {
            match (id, body_nick(resp.body)) {
                (Some(id), Some(nick)) => self.changing(
                    id,
                    |b: BufferView| with_nicks(b, nick_changed(b.nicks, nick)),
                ),
                _ => self,
            }
        }
    }

    /// The state after an event of the relay.
    pub open spec fn relay_event(
        self,
        prefix: Seq<char>,
        event: Seq<char>,
        resp: WeeChatResponse,
        entries: Seq<RelayEntry>,
        clock: Clock,
    ) -> AppView {
        if event == "buffer_line_added"@ {
            self.lines_added(prefix, resp, entries, clock.now, clock.ticks)
        } else if event == "buffer_line_data_changed"@ {
            self.change_entries(prefix, resp, entries, body_of(resp).len())
        } else if event == "buffer_hidden"@ {
            self.numbered_changed(prefix, resp.buffer_id, BufferChange::Hidden(true))
        } else if event == "buffer_unhidden"@ {
            self.numbered_changed(prefix, resp.buffer_id, BufferChange::Hidden(false))
        } else if event == "buffer_title_changed"@ {
            match resp.buffer_id {
                Some(i) => self.asking(
                    prefix,
                    ActionView::RefreshBuffer { conn: prefix, raw_id: decimal_int(i as int) },
                ),
                None => self,
            }
        } else if event == "nicklist_nick_added"@ || event == "nicklist_nick_removing"@ || event
            == "nicklist_nick_changed"@ {
            self.nick_event(prefix, event, resp)
        } else if event == "buffer_cleared"@ {
            self.numbered_changed(prefix, resp.buffer_id, BufferChange::Cleared)
        } else if event == "upgrade"@ {
            self.logged(prefix, clock.hms@, "WeeChat is upgrading — waiting for reload…"@)
        } else if event == "upgrade_ended"@ {
            self.asking(prefix, ActionView::FetchBufferList { conn: prefix }).logged(
                prefix,
                clock.hms@,
                "WeeChat upgrade complete — re-synced"@,
            )
        } else if lists_again(event) {
            self.asking(prefix, ActionView::FetchBufferList { conn: prefix })
        } else if event == "buffer_hotlist_added"@ || event == "buffer_hotlist_updated"@ {
            self.numbered_unread(prefix, resp.buffer_id).hotlist_taken(prefix, resp, clock.hms@)
        } else if event == "buffer_hotlist_removed"@ {
            self.asking(prefix, ActionView::FetchHotlist { conn: prefix })
        } else {
            self
        }
    }

    /// The state after an answer or an event of the relay.
    pub open spec fn responded(
        self,
        prefix: Seq<char>,
        resp: WeeChatResponse,
        entries: Seq<RelayEntry>,
        clock: Clock,
    ) -> AppView {
        let found = match resp.request_id {
            Some(id) => route(id@),
            None => RouteView::Other,
        };
        match found {
            RouteView::Completion(n) => self.completion_answered(prefix, n, resp),
            RouteView::List => self.buffers_listed(prefix, resp, entries, clock.hms@, clock.ticks),
            RouteView::Hotlist => self.hotlist_taken(prefix, resp, clock.hms@),
            RouteView::Lines(raw_id, count) => self.snapshot_answered(
                prefix,
                raw_id,
                count,
                resp,
                entries,
                clock.hms@,
            ),
            RouteView::Nicks(raw_id) => self.nicks_listed(full_id(prefix, raw_id), resp.body),
            RouteView::Info(raw_id) => self.info_entries(
                prefix,
                full_id(prefix, raw_id),
                body_of(resp),
                entries,
                body_of(resp).len(),
            ),
            RouteView::Other => match resp.event_name {
                Some(event) => self.relay_event(prefix, event@, resp, entries, clock),
                None => self,
            },
        }
    }
}

impl WeeChatApp {
    fn ask_connection(&mut self, conn_prefix: &str, action: Action)
        ensures
            final(self)@ == old(self)@.asking(conn_prefix@, action@),
            old(self).wf() ==> final(self).wf(),
    {
        if self.connection_idx_of(conn_prefix).is_some() {
            self.act(action);
        }
    }

    fn unread_numbered(&mut self, conn_prefix: &str, buffer: Option<i64>)
        requires
            old(self).wf(),
        ensures
            final(self).wf(),
            final(self)@ == old(self)@.numbered_unread(conn_prefix@, buffer),
    {
        match buffer {
            Some(i) => {
                let raw_id = i64_text(i);
                let id = full_id_of(conn_prefix, raw_id.as_str());
                match self.buffer_idx_of(id.as_str()) {
                    Some(k) => {
                        assert(self@.buffers[k as int] == self.buffers@[k as int]@);
                        let name = self.buffers[k].full_name.clone();
                        self.forget_read(id.as_str(), name.as_str());
                    },
                    None => {
                        self.cleared_buffer_ids.remove(id.as_str());
                    },
                }
            },
            None => {},
        }
    }

    fn refresh_numbered(&mut self, conn_prefix: &str, buffer: Option<i64>)
        ensures
            final(self)@ == (match buffer {
                Some(i) => old(self)@.asking(
                    conn_prefix@,
                    ActionView::RefreshBuffer {
                        conn: conn_prefix@,
                        raw_id: decimal_int(i as int),
                    },
                ),
                None => old(self)@,
            }),
            old(self).wf() ==> final(self).wf(),
    {
        match buffer {
            Some(i) => {
                let raw_id = i64_text(i);
                self.ask_connection(
                    conn_prefix,
                    Action::RefreshBuffer { conn: conn_prefix.to_owned(), raw_id },
                );
            },
            None => {},
        }
    }

    fn handle_nick_event(&mut self, conn_prefix: &str, event: &str, resp: &WeeChatResponse)
        requires
            old(self).wf(),
        ensures
            final(self).wf(),
            final(self)@ == old(self)@.nick_event(conn_prefix@, event@, *resp),
    {
        let id = match resp.buffer_id {
            Some(i) => {
                let raw_id = i64_text(i);
                full_id_of(conn_prefix, raw_id.as_str())
            },
            None => {
                return ;
            },
        };
        if same_text(event, "nicklist_nick_added") {
            match body_nick_of(&resp.body) {
                Some(nick) => {
                    self.change_buffer(id.as_str(), BufferChange::NickJoined(nick));
                },
                None => {},
            }
        } else if same_text(event, "nicklist_nick_removing") {
            match body_name_of(&resp.body) {
                Some(name) => {
                    self.change_buffer(id.as_str(), BufferChange::NickLeft(name));
                },
                None => {},
            }
        } else {
            match body_nick_of(&resp.body) {
                Some(nick) => {
                    self.change_buffer(id.as_str(), BufferChange::NickChanged(nick));
                },
                None => {},
            }
        }
    }

    fn handle_relay_event(
        &mut self,
        conn_prefix: &str,
        event: &str,
        resp: &WeeChatResponse,
        entries: &Vec<RelayEntry>,
        clock: &Clock,
    )
        requires
            old(self).wf(),
            entries@.len() == body_of(*resp).len(),
        ensures
            final(self).wf(),
            final(self)@ == old(self)@.relay_event(conn_prefix@, event@, *resp, entries@, *clock),
    {
        if same_text(event, "buffer_line_added") {
            self.handle_line_added(conn_prefix, resp, entries, clock);
        } else if same_text(event, "buffer_line_data_changed") {
            self.handle_line_changed(conn_prefix, resp, entries);
        } else if same_text(event, "buffer_hidden") {
            self.change_numbered(conn_prefix, resp.buffer_id, BufferChange::Hidden(true));
        } else if same_text(event, "buffer_unhidden") {
            self.change_numbered(conn_prefix, resp.buffer_id, BufferChange::Hidden(false));
        } else if same_text(event, "buffer_title_changed") {
            self.refresh_numbered(conn_prefix, resp.buffer_id);
        } else if same_text(event, "nicklist_nick_added") || same_text(
            event,
            "nicklist_nick_removing",
        ) || same_text(event, "nicklist_nick_changed") {
            self.handle_nick_event(conn_prefix, event, resp);
        } else if same_text(event, "buffer_cleared") {
            self.change_numbered(conn_prefix, resp.buffer_id, BufferChange::Cleared);
        } else if same_text(event, "upgrade") {
            self.log_conn_for(conn_prefix, "WeeChat is upgrading — waiting for reload…", clock);
        } else if same_text(event, "upgrade_ended") {
            self.ask_connection(
                conn_prefix,
                Action::FetchBufferList { conn: conn_prefix.to_owned() },
            );
            self.log_conn_for(conn_prefix, "WeeChat upgrade complete — re-synced", clock);
        } else if does_list_again(event) {
            self.ask_connection(
                conn_prefix,
                Action::FetchBufferList { conn: conn_prefix.to_owned() },
            );
        } else if same_text(event, "buffer_hotlist_added") || same_text(
            event,
            "buffer_hotlist_updated",
        ) {
            self.unread_numbered(conn_prefix, resp.buffer_id);
            self.handle_hotlist(conn_prefix, resp, clock);
        } else if same_text(event, "buffer_hotlist_removed") {
            self.ask_connection(
                conn_prefix,
                Action::FetchHotlist { conn: conn_prefix.to_owned() },
            );
        }
    }

    /// Takes in an answer or an event of the relay. `entries` holds, for every
    /// entry of the answer, what was read out of it beside its JSON.
    pub fn process_response(
        &mut self,
        conn_prefix: &str,
        resp: &WeeChatResponse,
        entries: &Vec<RelayEntry>,
        clock: &Clock,
    )
        requires
            old(self).wf(),
            entries@.len() == body_of(*resp).len(),
        ensures
            final(self).wf(),
            final(self)@ == old(self)@.responded(conn_prefix@, *resp, entries@, *clock),
    {
        let found = match &resp.request_id {
            Some(id) => route_of(id.as_str()),
            None => Route::Other,
        };
        match found {
            Route::Completion(n) => {
                self.handle_command_completion(conn_prefix, n, resp);
            },
            Route::List => {
                self.handle_buffer_list(conn_prefix, resp, entries, clock);
            },
            Route::Hotlist => {
                self.handle_hotlist(conn_prefix, resp, clock);
            },
            Route::Lines(raw_id, count) => {
                self.handle_buffer_lines(conn_prefix, raw_id.as_str(), count, resp, entries, clock);
            },
            Route::Nicks(raw_id) => {
                self.handle_nick_list(conn_prefix, raw_id.as_str(), resp);
            },
            Route::Info(raw_id) => {
                self.handle_buffer_info(conn_prefix, raw_id.as_str(), resp, entries);
            },
            Route::Other => {
                match &resp.event_name {
                    Some(event) => {
                        self.handle_relay_event(conn_prefix, event.as_str(), resp, entries, clock);
                    },
                    None => {},
                }
            },
        }
    }
}

} // verus!
