//! What the relay tells of lines and of unread counts.
use vstd::prelude::*;
use crate::history::matrix_history_snapshot_count;
use crate::json::{
    get_bool_or, get_id, get_text_or, get_whole_or, json_object, member_bool_or, member_id,
    member_text_or, member_whole_or, Json, JsonMember,
};
use crate::lines::{
    body_len, body_of, entry_date, entry_date_of, insert_by_time, is_historical, line_from,
    line_is_known, object_at, push_bounded, relay_line, with_line, without_oldest,
};
use crate::markers::{line_position, marker_nanos, marker_of, nanos_or_zero, SavedReadMarker};
use crate::models::{Buffer, BufferActivity, BufferView, Line, LineView, WeeChatResponse};
use crate::seqs::{first_index, lemma_first_from, lemma_last_index, views};
use crate::state::{
    buffer_place, lemma_same_ids, lemma_touched, Action, ActionView, AppView, Clock, RelayEntry, WeeChatApp,
    MAX_STORED_LINES,
};
use crate::tags::{
    event_id_behind, matrix_history_page_status, page_status, reply_in, tags,
};
use crate::text::{decimal_int, i64_text, join3, opt_is, opt_text};
use crate::time::{before, Timestamp};
use vstd::string::StringExecFns;

verus! {

/// The id of a buffer of a connection.
pub open spec fn full_id(prefix: Seq<char>, raw_id: Seq<char>) -> Seq<char> {
    prefix + "/"@ + raw_id
}

pub fn full_id_of(prefix: &str, raw_id: &str) -> (id: String)
    ensures
        id@ == full_id(prefix@, raw_id@),
{
    join3(prefix, "/", raw_id)
}

/// The buffer that an entry speaks of: the one of the answer, or the one that
/// the entry names.
pub open spec fn entry_buffer(resp_buffer: Option<i64>, obj: Seq<JsonMember>) -> Option<Seq<char>> {
    match resp_buffer {
        Some(i) => Some(decimal_int(i as int)),
        None => member_id(obj, "buffer_id"@),
    }
}

fn entry_buffer_of(resp_buffer: Option<i64>, obj: &Vec<JsonMember>) -> (raw_id: Option<String>)
    ensures
        opt_text(raw_id) == entry_buffer(resp_buffer, obj@),
{
    match resp_buffer {
        Some(i) => Some(i64_text(i)),
        None => get_id(obj, "buffer_id"),
    }
}

// ---------------------------------------------------------------------------
// The end of a page of Matrix history
// ---------------------------------------------------------------------------

impl AppView {
    /// The state with a snapshot of everything asked for.
    pub open spec fn snapshot_asked(self, id: Seq<char>) -> AppView {
        let noted = AppView {
            history_request_counts: self.history_request_counts.insert(id, MAX_STORED_LINES),
            ..self
        };
        match noted.owner(id) {
            Some((conn, raw_id)) => noted.doing(
                ActionView::FetchLines { conn, raw_id, count: MAX_STORED_LINES },
            ),
            None => AppView { loading_more_buffer_id: None, ..noted },
        }
    }

    /// The state without a request for older lines of a buffer.
    pub open spec fn loading_ended(self, id: Seq<char>) -> AppView {
        AppView {
            loading_more_buffer_id: if self.loading_more_buffer_id == Some(id) {
                None
            } else {
                self.loading_more_buffer_id
            },
            ..self
        }
    }

    /// The state after a page of Matrix history came.
    pub open spec fn page_ended(self, id: Seq<char>, message: Seq<char>) -> AppView {
        match page_status(message) {
            Some((added, exhausted)) => {
                let noted = if exhausted {
                    self.exhausted_noted(id)
                } else {
                    self
                };
                if added > 0 {
                    noted.snapshot_asked(id)
                } else {
                    noted.loading_ended(id)
                }
            },
            None => self,
        }
    }
}

impl WeeChatApp {
    fn note_request(&mut self, id: &str, count: usize)
        ensures
            final(self)@ == (AppView {
                history_request_counts: old(self)@.history_request_counts.insert(id@, count),
                ..old(self)@
            }),
            old(self).wf() ==> final(self).wf(),
    {
        let ghost before = self@;
        self.history_request_counts.insert(id.to_owned(), count);
        assert(self@.buffers == before.buffers);
    }

    fn stop_loading(&mut self)
        ensures
            final(self)@ == (AppView { loading_more_buffer_id: None, ..old(self)@ }),
            old(self).wf() ==> final(self).wf(),
    {
        let ghost before = self@;
        self.loading_more_buffer_id = None;
        assert(self@.buffers == before.buffers);
    }

    fn ask_snapshot(&mut self, id: &str)
        ensures
            final(self)@ == old(self)@.snapshot_asked(id@),
            old(self).wf() ==> final(self).wf(),
    {
        let count: usize = matrix_history_snapshot_count();
        self.note_request(id, count);
        match self.client_for_buffer(id) {
            Some((conn, raw_id)) => {
                self.act(Action::FetchLines { conn, raw_id, count });
            },
            None => {
                self.stop_loading();
            },
        }
    }

    pub(crate) fn end_loading(&mut self, id: &str)
        ensures
            final(self)@ == old(self)@.loading_ended(id@),
            old(self).wf() ==> final(self).wf(),
            final(self).buffers@ == old(self).buffers@,
    {
        let ghost start = self@;
        if opt_is(&self.loading_more_buffer_id, id) {
            self.loading_more_buffer_id = None;
        }
        assert(self@.profiles == start.profiles);
    }

    fn end_page(&mut self, id: &str, message: &str)
        ensures
            final(self)@ == old(self)@.page_ended(id@, message@),
            old(self).wf() ==> final(self).wf(),
    {
        match matrix_history_page_status(message) {
            Some((added, exhausted)) => {
                if exhausted {
                    self.note_exhausted(id);
                }
                if added > 0 {
                    self.ask_snapshot(id);
                } else {
                    self.end_loading(id);
                }
            },
            None => {},
        }
    }
}

// ---------------------------------------------------------------------------
// New lines
// ---------------------------------------------------------------------------

/// What an entry tells of a new line beside the line itself.
#[derive(Debug, Clone, Copy, PartialEq, Eq, Structural)]
pub struct LineNews {
    pub highlight: bool,
    pub notify_level: i64,
    pub is_self_msg: bool,
    pub is_notify_none: bool,
    pub is_join_part: bool,
}

pub open spec fn news_in(obj: Seq<JsonMember>) -> LineNews {
    LineNews {
        highlight: member_bool_or(obj, "highlight"@, false),
        notify_level: member_whole_or(obj, "notify_level"@, 0),
        is_self_msg: tags(obj).contains("self_msg"@),
        is_notify_none: tags(obj).contains("notify_none"@),
        is_join_part: tags(obj).contains("irc_join"@) || tags(obj).contains("irc_part"@) || tags(
            obj,
        ).contains("irc_quit"@),
    }
}

fn news_of(obj: &Vec<JsonMember>) -> (news: LineNews)
    ensures
        news == news_in(obj@),
{
    LineNews {
        highlight: get_bool_or(obj, "highlight", false),
        notify_level: get_whole_or(obj, "notify_level", 0),
        is_self_msg: WeeChatApp::has_tag(obj, "self_msg"),
        is_notify_none: WeeChatApp::has_tag(obj, "notify_none"),
        is_join_part: WeeChatApp::has_tag(obj, "irc_join") || WeeChatApp::has_tag(obj, "irc_part")
            || WeeChatApp::has_tag(obj, "irc_quit"),
    }
}

impl LineNews {
    /// Whether a line calls for attention.
    pub open spec fn is_urgent(self) -> bool {
        self.highlight || self.notify_level == 3
    }

    /// How urgent a line makes its buffer.
    pub open spec fn activity(self) -> BufferActivity {
        if self.is_urgent() {
            BufferActivity::Highlight
        } else if self.notify_level == 2 {
            BufferActivity::Message
        } else {
            BufferActivity::Metadata
        }
    }

    /// Whether a line counts as unread in a buffer that is not on view.
    pub open spec fn counts(self, b: BufferView, line: LineView) -> bool {
        line.displayed && !b.muted && !self.is_notify_none && !self.is_self_msg
    }
}

/// One more, up to what a `u32` can hold.
pub open spec fn one_more(n: u32) -> u32 {
    if n == u32::MAX {
        n
    } else {
        (n + 1) as u32
    }
}

/// A buffer with a new line in it.
pub open spec fn with_new_line(b: BufferView, line: LineView) -> BufferView {
    BufferView { messages: without_oldest(with_line(b.messages, line)), ..b }
}

/// A buffer on view with a new line in it. A line that is newer than all others
/// is read at once.
pub open spec fn with_read_line(b: BufferView, line: LineView) -> BufferView {
    if is_historical(b.messages, line) {
        with_new_line(b, line)
    } else {
        BufferView { last_read_id: Some(line.id), ..with_new_line(b, line) }
    }
}

/// A buffer that is not on view with a new line in it.
pub open spec fn with_unread_line(b: BufferView, line: LineView, news: LineNews) -> BufferView {
    if news.counts(b, line) {
        BufferView {
            unread_count: if news.is_join_part {
                b.unread_count
            } else {
                one_more(b.unread_count)
            },
            activity: if news.activity().level() > b.activity.level() {
                news.activity()
            } else {
                b.activity
            },
            ..with_new_line(b, line)
        }
    } else {
        with_new_line(b, line)
    }
}

fn take_line(b: &mut Buffer, line: Line) -> (historical: bool)
    ensures
        historical == is_historical(old(b)@.messages, line@),
        final(b)@ == with_new_line(old(b)@, line@),
{
    insert_by_time(&mut b.messages, line)
}

fn take_read_line(b: &mut Buffer, line: Line) -> (historical: bool)
    ensures
        historical == is_historical(old(b)@.messages, line@),
        final(b)@ == with_read_line(old(b)@, line@),
{
    let id = line.id.clone();
    let historical = take_line(b, line);
    if !historical {
        b.last_read_id = Some(id);
    }
    historical
}

fn take_unread_line(b: &mut Buffer, line: Line, news: LineNews) -> (rose: bool)
    ensures
        final(b)@ == with_unread_line(old(b)@, line@, news),
        rose == (news.counts(old(b)@, line@) && news.activity().level()
            > old(b)@.activity.level()),
{
    let counts = line.displayed && !b.muted && !news.is_notify_none && !news.is_self_msg;
    take_line(b, line);
    if !counts {
        return false;
    }
    if !news.is_join_part && b.unread_count < u32::MAX {
        b.unread_count = b.unread_count + 1;
    }
    let activity = if news.highlight || news.notify_level == 3 {
        BufferActivity::Highlight
    } else if news.notify_level == 2 {
        BufferActivity::Message
    } else {
        BufferActivity::Metadata
    };
    if activity.rank() > b.activity.rank() {
        b.activity = activity;
        true
    } else {
        false
    }
}

impl AppView {
    /// The state with a buffer no longer noted as read.
    pub open spec fn read_forgotten(self, id: Seq<char>, name: Seq<char>) -> AppView {
        AppView {
            cleared_buffer_ids: self.cleared_buffer_ids.remove(id),
            cleared_buffer_names: self.cleared_buffer_names.remove(name),
            ..self
        }
    }

    /// The state after a line came for the buffer on view.
    pub open spec fn line_read(self, i: int, line: LineView) -> AppView {
        let b = self.buffers[i];
        let taken = self.with_buffer(i, with_read_line(b, line));
        if is_historical(b.messages, line) {
            taken
        } else {
            AppView {
                read_markers: taken.read_markers.insert(b.full_name, marker_of(line)),
                ..taken
            }
        }
    }

    /// The state after a line came for a buffer that is not on view.
    pub open spec fn line_unread(self, i: int, line: LineView, news: LineNews, ticks: u64) -> AppView {
        let b = self.buffers[i];
        let taken = self.with_buffer(i, with_unread_line(b, line, news));
        let noted = if news.counts(b, line) && news.activity().level() > b.activity.level() {
            taken.read_forgotten(b.id, b.full_name)
        } else {
            taken
        };
        if news.counts(b, line) && news.is_urgent() {
            noted.notified(b.id, b.name, line.prefix, line.message, ticks)
        } else {
            noted
        }
    }

    /// The state after a line came for a buffer. A line that is there already
    /// changes nothing.
    pub open spec fn line_taken(self, id: Seq<char>, line: LineView, news: LineNews, ticks: u64) -> AppView {
        match buffer_place(self.buffers, id) {
            Some(i) => if line_is_known(self.buffers[i].messages, line.id) {
                self
            } else if self.selected_buffer_id == Some(id) {
                self.line_read(i, line)
            } else {
                self.line_unread(i, line, news, ticks)
            },
            None => self,
        }
    }

    /// The state after one entry about a new line.
    pub open spec fn line_entry(
        self,
        prefix: Seq<char>,
        resp_buffer: Option<i64>,
        value: Json,
        date: Timestamp,
        now: Timestamp,
        ticks: u64,
    ) -> AppView {
        match json_object(value) {
            Some(obj) => match entry_buffer(resp_buffer, obj) {
                Some(raw_id) => {
                    let id = full_id(prefix, raw_id);
                    if tags(obj).contains("matrix_history_page"@) {
                        self.page_ended(id, member_text_or(obj, "message"@, Seq::empty()))
                    } else {
                        self.line_taken(
                            id,
                            relay_line(
                                obj,
                                new_line_id(obj, now),
                                date,
                                member_bool_or(obj, "displayed"@, true),
                                member_bool_or(obj, "highlight"@, false),
                            ),
                            news_in(obj),
                            ticks,
                        )
                    }
                },
                None => self,
            },
            None => self,
        }
    }

    /// The state after the first `n` entries about new lines.
    pub open spec fn line_entries(
        self,
        prefix: Seq<char>,
        resp: WeeChatResponse,
        entries: Seq<RelayEntry>,
        now: Timestamp,
        ticks: u64,
        n: nat,
    ) -> AppView
        decreases n,
    {
        if n == 0 || n > body_of(resp).len() || n > entries.len() {
            self
        } else {
            self.line_entries(prefix, resp, entries, now, ticks, (n - 1) as nat).line_entry(
                prefix,
                resp.buffer_id,
                body_of(resp)[n - 1],
                entry_date(body_of(resp)[n - 1], entries[n - 1]),
                now,
                ticks,
            )
        }
    }

    /// The state after an answer about new lines.
    pub open spec fn lines_added(
        self,
        prefix: Seq<char>,
        resp: WeeChatResponse,
        entries: Seq<RelayEntry>,
        now: Timestamp,
        ticks: u64,
    ) -> AppView {
        self.line_entries(prefix, resp, entries, now, ticks, body_of(resp).len())
    }
}

/// The id of a new line: the one that it has, or the time where it has none.
pub open spec fn new_line_id(obj: Seq<JsonMember>, now: Timestamp) -> Seq<char> {
    match member_id(obj, "id"@) {
        Some(id) => id,
        None => decimal_int(marker_nanos(now) as int),
    }
}

impl WeeChatApp {
    pub(crate) fn forget_read(&mut self, id: &str, name: &str)
        ensures
            final(self)@ == old(self)@.read_forgotten(id@, name@),
            old(self).wf() ==> final(self).wf(),
            final(self).buffers@ == old(self).buffers@,
    {
        let ghost start = self@;
        self.cleared_buffer_ids.remove(id);
        self.cleared_buffer_names.remove(name);
        assert(self@.profiles == start.profiles);
    }

    pub(crate) fn save_marker(&mut self, full_name: String, marker: SavedReadMarker)
        ensures
            final(self)@ == (AppView {
                read_markers: old(self)@.read_markers.insert(full_name@, marker@),
                ..old(self)@
            }),
            old(self).wf() ==> final(self).wf(),
            final(self).buffers@ == old(self).buffers@,
    {
        let ghost start = self@;
        self.read_markers.insert(full_name, marker);
        assert(self@.profiles == start.profiles);
    }

    #[verifier::rlimit(40)]
    fn put_read_line(&mut self, i: usize, line: Line) -> (historical: bool)
        requires
            old(self).wf(),
            i < old(self).buffers@.len(),
        ensures
            final(self).wf(),
            final(self)@ == old(self)@.with_buffer(
                i as int,
                with_read_line(old(self)@.buffers[i as int], line@),
            ),
            historical == is_historical(old(self)@.buffers[i as int].messages, line@),
    {
        let ghost before = self.buffers@;
        assert(self@.buffers[i as int] == before[i as int]@);
        let ghost state = self@;
        let historical = take_read_line(&mut self.buffers[i], line);
        proof {
            lemma_touched(before, self.buffers@, i as int);
            assert(self@.connections == state.connections);
        }
        historical
    }

    fn read_line(&mut self, i: usize, line: Line)
        requires
            old(self).wf(),
            i < old(self).buffers@.len(),
        ensures
            final(self).wf(),
            final(self)@ == old(self)@.line_read(i as int, line@),
    {
        assert(self@.buffers[i as int] == self.buffers@[i as int]@);
        let marker = SavedReadMarker::from_line(&line);
        let full_name = self.buffers[i].full_name.clone();
        let historical = self.put_read_line(i, line);
        if !historical {
            self.save_marker(full_name, marker);
        }
    }

    fn put_unread_line(&mut self, i: usize, line: Line, news: LineNews) -> (rose: bool)
        requires
            old(self).wf(),
            i < old(self).buffers@.len(),
        ensures
            final(self).wf(),
            final(self)@ == old(self)@.with_buffer(
                i as int,
                with_unread_line(old(self)@.buffers[i as int], line@, news),
            ),
            rose == (news.counts(old(self)@.buffers[i as int], line@) && news.activity().level()
                > old(self)@.buffers[i as int].activity.level()),
            final(self).buffers@.len() == old(self).buffers@.len(),
    {
        let ghost before = self.buffers@;
        assert(self@.buffers[i as int] == before[i as int]@);
        let rose = take_unread_line(&mut self.buffers[i], line, news);
        proof {
            lemma_touched(before, self.buffers@, i as int);
        }
        rose
    }

    fn unread_line(&mut self, i: usize, line: Line, news: LineNews, ticks: u64)
        requires
            old(self).wf(),
            i < old(self).buffers@.len(),
        ensures
            final(self).wf(),
            final(self)@ == old(self)@.line_unread(i as int, line@, news, ticks),
    {
        assert(self@.buffers[i as int] == self.buffers@[i as int]@);
        let id = self.buffers[i].id.clone();
        let full_name = self.buffers[i].full_name.clone();
        let name = self.buffers[i].name.clone();
        let alarms = line.displayed && !self.buffers[i].muted && !news.is_notify_none
            && !news.is_self_msg && (news.highlight || news.notify_level == 3);
        let prefix = line.prefix.clone();
        let message = line.message.clone();
        let rose = self.put_unread_line(i, line, news);
        if rose {
            self.forget_read(id.as_str(), full_name.as_str());
        }
        if alarms {
            self.notify_highlight(
                id.as_str(),
                name.as_str(),
                prefix.as_str(),
                message.as_str(),
                ticks,
            );
        }
    }

    fn take_new_line(&mut self, id: &str, line: Line, news: LineNews, ticks: u64)
        requires
            old(self).wf(),
        ensures
            final(self).wf(),
            final(self)@ == old(self)@.line_taken(id@, line@, news, ticks),
    {
        match self.buffer_idx_of(id) {
            Some(i) => {
                assert(self@.buffers[i as int] == self.buffers@[i as int]@);
                if line_position(&self.buffers[i].messages, line.id.as_str()).is_some() {
                    return ;
                }
                if opt_is(&self.selected_buffer_id, id) {
                    self.read_line(i, line);
                } else {
                    self.unread_line(i, line, news, ticks);
                }
            },
            None => {},
        }
    }

    fn handle_line_entry(
        &mut self,
        conn_prefix: &str,
        resp: &WeeChatResponse,
        i: usize,
        date: Timestamp,
        clock: &Clock,
    )
        requires
            old(self).wf(),
            i < body_of(*resp).len(),
        ensures
            final(self).wf(),
            final(self)@ == old(self)@.line_entry(
                conn_prefix@,
                resp.buffer_id,
                body_of(*resp)[i as int],
                date,
                clock.now,
                clock.ticks,
            ),
    {
        let obj = match object_at(resp, i) {
            Some(obj) => obj,
            None => {
                return ;
            },
        };
        let raw_id = match entry_buffer_of(resp.buffer_id, obj) {
            Some(raw_id) => raw_id,
            None => {
                return ;
            },
        };
        let id = full_id_of(conn_prefix, raw_id.as_str());
        if WeeChatApp::has_tag(obj, "matrix_history_page") {
            proof {
                reveal_strlit("");
                assert(""@ =~= Seq::<char>::empty());
            }
            let message = get_text_or(obj, "message", "");
            self.end_page(id.as_str(), message.as_str());
            return ;
        }
        let displayed = get_bool_or(obj, "displayed", true);
        let highlight = get_bool_or(obj, "highlight", false);
        let line_id = match get_id(obj, "id") {
            Some(line_id) => line_id,
            None => i64_text(nanos_or_zero(clock.now)),
        };
        let line = line_from(obj, line_id, date, displayed, highlight);
        let news = news_of(obj);
        self.take_new_line(id.as_str(), line, news, clock.ticks);
    }

    /// Takes in new lines.
    pub fn handle_line_added(
        &mut self,
        conn_prefix: &str,
        resp: &WeeChatResponse,
        entries: &Vec<RelayEntry>,
        clock: &Clock,
    )
        requires
            old(self).wf(),
            entries@.len() == body_of(*resp).len(),
        ensures
            final(self).wf(),
            final(self)@ == old(self)@.lines_added(
                conn_prefix@,
                *resp,
                entries@,
                clock.now,
                clock.ticks,
            ),
    {
        let n: usize = body_len(resp);
        let mut i: usize = 0;
        while i < n
            invariant
                i <= n,
                n == body_of(*resp).len(),
                entries@.len() == n,
                self.wf(),
                self@ == old(self)@.line_entries(
                    conn_prefix@,
                    *resp,
                    entries@,
                    clock.now,
                    clock.ticks,
                    i as nat,
                ),
            decreases n - i,
        {
            let date = entry_date_of(resp, i, &entries[i]);
            self.handle_line_entry(conn_prefix, resp, i, date, clock);
            i = i + 1;
        }
    }
}

// ---------------------------------------------------------------------------
// Changed lines
// ---------------------------------------------------------------------------

/// A line after an entry about it.
pub open spec fn changed_line(line: LineView, obj: Seq<JsonMember>) -> LineView {
    LineView {
        displayed: member_bool_or(obj, "displayed"@, true),
        matrix_event_id: match event_id_behind(tags(obj), "matrix_id_"@) {
            Some(id) => Some(id),
            None => line.matrix_event_id,
        },
        matrix_reply: match reply_in(tags(obj)) {
            Some(reply) => Some(reply),
            None => line.matrix_reply,
        },
        ..line
    }
}

/// A buffer after an entry about one of its lines. A line that it does not have
/// is added where it is to be shown.
pub open spec fn with_changed_line(
    b: BufferView,
    obj: Seq<JsonMember>,
    line_id: Seq<char>,
    date: Timestamp,
) -> BufferView {
    match first_index(b.messages, |l: LineView| l.id == line_id) {
        Some(k) => BufferView {
            messages: b.messages.update(k, changed_line(b.messages[k], obj)),
            ..b
        },
        None => if member_bool_or(obj, "displayed"@, true) {
            BufferView {
                messages: without_oldest(
                    b.messages.push(relay_line(obj, line_id, date, true, false)),
                ),
                ..b
            }
        } else {
            b
        },
    }
}

fn change_line(line: &mut Line, obj: &Vec<JsonMember>)
    ensures
        final(line)@ == changed_line(old(line)@, obj@),
{
    line.displayed = get_bool_or(obj, "displayed", true);
    match WeeChatApp::tag_value(obj, "matrix_id_") {
        Some(event_id) => {
            line.matrix_event_id = Some(event_id);
        },
        None => {},
    }
    match WeeChatApp::matrix_reply_from_tags(obj) {
        Some(reply) => {
            line.matrix_reply = Some(reply);
        },
        None => {},
    }
}

fn change_line_in(b: &mut Buffer, obj: &Vec<JsonMember>, line_id: String, date: Timestamp)
    ensures
        final(b)@ == with_changed_line(old(b)@, obj@, line_id@, date),
{
    match line_position(&b.messages, line_id.as_str()) {
        Some(k) => {
            let ghost before = b.messages@;
            let found = b.messages.remove(k);
            match found {
                Some(line) => {
                    let mut line = line;
                    change_line(&mut line, obj);
                    b.messages.insert(k, line);
                    assert(views(before)[k as int] == before[k as int]@);
                    assert(views(b.messages@) =~= views(before).update(k as int, line@));
                },
                None => {
                    assert(false);
                },
            }
        },
        None => {
            if get_bool_or(obj, "displayed", true) {
                let line = line_from(obj, line_id, date, true, false);
                push_bounded(&mut b.messages, line);
            }
        },
    }
}

impl AppView {
    /// The state after one entry about a changed line.
    pub open spec fn change_entry(
        self,
        prefix: Seq<char>,
        resp_buffer: Option<i64>,
        value: Json,
        date: Timestamp,
    ) -> AppView {
        match json_object(value) {
            Some(obj) => match (entry_buffer(resp_buffer, obj), member_id(obj, "id"@)) {
                (Some(raw_id), Some(line_id)) => self.changing(
                    full_id(prefix, raw_id),
                    |b: BufferView| with_changed_line(b, obj, line_id, date),
                ),
                _ => self,
            },
            None => self,
        }
    }

    /// The state after the first `n` entries about changed lines.
    pub open spec fn change_entries(
        self,
        prefix: Seq<char>,
        resp: WeeChatResponse,
        entries: Seq<RelayEntry>,
        n: nat,
    ) -> AppView
        decreases n,
    {
        if n == 0 || n > body_of(resp).len() || n > entries.len() {
            self
        } else {
            self.change_entries(prefix, resp, entries, (n - 1) as nat).change_entry(
                prefix,
                resp.buffer_id,
                body_of(resp)[n - 1],
                entry_date(body_of(resp)[n - 1], entries[n - 1]),
            )
        }
    }
}

impl WeeChatApp {
    fn handle_change_entry(
        &mut self,
        conn_prefix: &str,
        resp: &WeeChatResponse,
        i: usize,
        date: Timestamp,
    )
        requires
            old(self).wf(),
            i < body_of(*resp).len(),
        ensures
            final(self).wf(),
            final(self)@ == old(self)@.change_entry(
                conn_prefix@,
                resp.buffer_id,
                body_of(*resp)[i as int],
                date,
            ),
    {
        let obj = match object_at(resp, i) {
            Some(obj) => obj,
            None => {
                return ;
            },
        };
        match (entry_buffer_of(resp.buffer_id, obj), get_id(obj, "id")) {
            (Some(raw_id), Some(line_id)) => {
                let id = full_id_of(conn_prefix, raw_id.as_str());
                match self.buffer_idx_of(id.as_str()) {
                    Some(k) => {
                        let ghost before = self.buffers@;
                        assert(self@.buffers[k as int] == before[k as int]@);
                        change_line_in(&mut self.buffers[k], obj, line_id, date);
                        proof {
                            lemma_touched(before, self.buffers@, k as int);
                        }
                    },
                    None => {},
                }
            },
            _ => {},
        }
    }

    /// Takes in changes to lines.
    pub fn handle_line_changed(
        &mut self,
        conn_prefix: &str,
        resp: &WeeChatResponse,
        entries: &Vec<RelayEntry>,
    )
        requires
            old(self).wf(),
            entries@.len() == body_of(*resp).len(),
        ensures
            final(self).wf(),
            final(self)@ == old(self)@.change_entries(
                conn_prefix@,
                *resp,
                entries@,
                body_of(*resp).len(),
            ),
    {
        let n: usize = body_len(resp);
        let mut i: usize = 0;
        while i < n
            invariant
                i <= n,
                n == body_of(*resp).len(),
                entries@.len() == n,
                self.wf(),
                self@ == old(self)@.change_entries(conn_prefix@, *resp, entries@, i as nat),
            decreases n - i,
        {
            let date = entry_date_of(resp, i, &entries[i]);
            self.handle_change_entry(conn_prefix, resp, i, date);
            i = i + 1;
        }
    }
}

// ---------------------------------------------------------------------------
// What holds of new lines
// ---------------------------------------------------------------------------

/// A line that a buffer has already is not taken in again.
pub proof fn a_line_is_taken_in_once(
    state: AppView,
    id: Seq<char>,
    line: LineView,
    news: LineNews,
    ticks: u64,
)
    requires
        buffer_place(state.buffers, id) is Some,
        state.buffers[buffer_place(state.buffers, id)->0].messages.len() < MAX_STORED_LINES,
    ensures
        state.line_taken(id, line, news, ticks).line_taken(id, line, news, ticks)
            == state.line_taken(id, line, news, ticks),
{
    let i = buffer_place(state.buffers, id)->0;
    if !line_is_known(state.buffers[i].messages, line.id) {
        lemma_taken_lines(state, id, line, news, ticks);
        lemma_with_line_known(state.buffers[i].messages, line);
        lemma_known_again(state.line_taken(id, line, news, ticks), id, line, news, ticks);
    }
}

proof fn lemma_taken_lines(
    state: AppView,
    id: Seq<char>,
    line: LineView,
    news: LineNews,
    ticks: u64,
)
    requires
        buffer_place(state.buffers, id) is Some,
        state.buffers[buffer_place(state.buffers, id)->0].messages.len() < MAX_STORED_LINES,
        !line_is_known(state.buffers[buffer_place(state.buffers, id)->0].messages, line.id),
    ensures
        ({
            let i = buffer_place(state.buffers, id)->0;
            let after = state.line_taken(id, line, news, ticks);
            &&& buffer_place(after.buffers, id) == Some(i)
            &&& after.buffers[i].messages == with_line(state.buffers[i].messages, line)
        }),
{
    lemma_last_index(state.buffers, |b: BufferView| b.id == id);
    let i = buffer_place(state.buffers, id)->0;
    let after = state.line_taken(id, line, news, ticks);
    let messages = state.buffers[i].messages;
    lemma_first_from(messages, |l: LineView| before(line.timestamp, l.timestamp), 0);
    assert(with_line(messages, line).len() == messages.len() + 1);
    assert(after.buffers[i].messages == with_line(messages, line));
    lemma_same_ids(state.buffers, after.buffers);
}

proof fn lemma_known_again(
    state: AppView,
    id: Seq<char>,
    line: LineView,
    news: LineNews,
    ticks: u64,
)
    requires
        buffer_place(state.buffers, id) is Some,
        line_is_known(state.buffers[buffer_place(state.buffers, id)->0].messages, line.id),
    ensures
        state.line_taken(id, line, news, ticks) == state,
{
}

proof fn lemma_with_line_known(messages: Seq<LineView>, line: LineView)
    ensures
        line_is_known(with_line(messages, line), line.id),
{
    let lines = with_line(messages, line);
    let later = |l: LineView| before(line.timestamp, l.timestamp);
    lemma_first_from(messages, later, 0);
    let at = if is_historical(messages, line) && first_index(messages, later) is Some {
        first_index(messages, later)->0
    } else {
        messages.len() as int
    };
    assert(lines[at] == line);
    let same_id = |l: LineView| l.id == line.id;
    lemma_first_from(lines, same_id, 0);
    assert(same_id(lines[at]));
}

/// A line in the buffer on view does not count as unread.
pub proof fn lines_on_view_are_not_counted(
    state: AppView,
    id: Seq<char>,
    line: LineView,
    news: LineNews,
    ticks: u64,
    k: int,
)
    requires
        state.selected_buffer_id == Some(id),
        0 <= k < state.buffers.len(),
    ensures
        ({
            let after = state.line_taken(id, line, news, ticks);
            &&& after.buffers.len() == state.buffers.len()
            &&& after.buffers[k].unread_count == state.buffers[k].unread_count
            &&& after.buffers[k].activity == state.buffers[k].activity
            &&& after.outbox == state.outbox
        }),
{
    lemma_last_index(state.buffers, |b: BufferView| b.id == id);
}

/// A muted buffer neither counts lines nor raises notifications.
pub proof fn muted_buffers_stay_quiet(
    state: AppView,
    id: Seq<char>,
    line: LineView,
    news: LineNews,
    ticks: u64,
)
    requires
        buffer_place(state.buffers, id) is Some,
        state.buffers[buffer_place(state.buffers, id)->0].muted,
    ensures
        ({
            let i = buffer_place(state.buffers, id)->0;
            let after = state.line_taken(id, line, news, ticks);
            &&& after.buffers[i].unread_count == state.buffers[i].unread_count
            &&& after.buffers[i].activity == state.buffers[i].activity
            &&& after.outbox == state.outbox
        }),
{
    lemma_last_index(state.buffers, |b: BufferView| b.id == id);
}

} // verus!
