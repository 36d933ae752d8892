//! Snapshots of lines and unread counts.
use vstd::prelude::*;
use std::collections::VecDeque;
use vstd::string::StringExecFns;
use crate::history::{history_snapshot_is_exhausted, is_exhausted};
use crate::json::{
    get, get_id, get_whole_or, json_object, json_signed, member, member_id, member_whole_or, Json,
    JsonMember,
};
use crate::lines::{body_len, body_of, line_is_known, lines_from_snapshot, object_at, snapshot_of};
use crate::markers::{line_position, marker_of, MarkerView, SavedReadMarker};
use crate::models::{
    opt_view, Buffer, BufferActivity, BufferView, Line, LineView, WeeChatResponse,
};
use crate::relay_lines::{full_id, full_id_of};
use crate::seqs::{first_index, views};
use crate::state::{buffer_of, buffer_place, lemma_touched, AppView, Clock, RelayEntry, WeeChatApp};
use crate::text::{decimal, join3, opt_is, opt_text, same_text, usize_text};

verus! {

// ---------------------------------------------------------------------------
// Snapshots
// ---------------------------------------------------------------------------

/// Whether the divider of a visit stands at no line that is loaded.
pub open spec fn divider_is_lost(marker: Option<Seq<char>>, lines: Seq<LineView>) -> bool {
    match marker {
        Some(id) => !line_is_known(lines, id),
        None => true,
    }
}

/// A buffer on view with a snapshot in it. Its divider is found again by the
/// saved marker, and everything counts as read.
pub open spec fn with_snapshot_on_view(
    b: BufferView,
    lines: Seq<LineView>,
    saved: Option<MarkerView>,
) -> BufferView {
    BufferView {
        messages: lines,
        visit_start_marker_id: match saved {
            Some(marker) if divider_is_lost(b.visit_start_marker_id, lines) =>
                marker.restored_visit(lines),
            _ => b.visit_start_marker_id,
        },
        last_read_id: if lines.len() > 0 {
            Some(lines.last().id)
        } else {
            b.last_read_id
        },
        ..b
    }
}

/// A buffer that is not on view with a snapshot in it. What was read is found
/// again by the saved marker; a buffer of which nothing is known counts as read.
pub open spec fn with_snapshot_aside(
    b: BufferView,
    lines: Seq<LineView>,
    saved: Option<MarkerView>,
) -> BufferView {
    BufferView {
        messages: lines,
        last_read_id: match saved {
            Some(marker) => marker.restored(lines),
            None => if b.last_read_id is None && lines.len() > 0 {
                Some(lines.last().id)
            } else {
                b.last_read_id
            },
        },
        ..b
    }
}

fn put_snapshot_on_view(b: &mut Buffer, lines: VecDeque<Line>, saved: &Option<SavedReadMarker>)
    ensures
        final(b)@ == with_snapshot_on_view(old(b)@, views(lines@), opt_view(*saved)),
{
    let n: usize = lines.len();
    assert(views(lines@).len() == n);
    match saved {
        Some(marker) => {
            let lost = match &b.visit_start_marker_id {
                Some(id) => line_position(&lines, id.as_str()).is_none(),
                None => true,
            };
            if lost {
                b.visit_start_marker_id = marker.restore_visit_line_id(&lines);
            }
        },
        None => {},
    }
    if n > 0 {
        assert(views(lines@).last() == lines@[n - 1]@);
        b.last_read_id = Some(lines[n - 1].id.clone());
    }
    b.messages = lines;
}

fn put_snapshot_aside(b: &mut Buffer, lines: VecDeque<Line>, saved: &Option<SavedReadMarker>)
    ensures
        final(b)@ == with_snapshot_aside(old(b)@, views(lines@), opt_view(*saved)),
{
    let n: usize = lines.len();
    assert(views(lines@).len() == n);
    match saved {
        Some(marker) => {
            b.last_read_id = marker.restore_line_id(&lines);
        },
        None => {
            if b.last_read_id.is_none() && n > 0 {
                assert(views(lines@).last() == lines@[n - 1]@);
                b.last_read_id = Some(lines[n - 1].id.clone());
            }
        },
    }
    b.messages = lines;
}

/// The saved marker of a buffer.
pub open spec fn saved_marker(markers: Map<Seq<char>, MarkerView>, name: Seq<char>) -> Option<
    MarkerView,
> {
    if markers.contains_key(name) {
        Some(markers[name])
    } else {
        None
    }
}

/// The log entry about a snapshot.
pub open spec fn snapshot_report(
    raw_id: Seq<char>,
    n: nat,
    is_load_more: bool,
    name: Seq<char>,
) -> Seq<char> {
    "← GET /api/buffers/"@ + raw_id + "/lines  "@ + decimal(n) + " lines"@ + (if is_load_more {
        " (load more)"@
    } else {
        Seq::empty()
    }) + "  [#"@ + name + "]"@
}

impl AppView {
    /// The state with a snapshot in the buffer on view.
    pub open spec fn snapshot_on_view(self, i: int, lines: Seq<LineView>) -> AppView {
        let b = self.buffers[i];
        let put = self.with_buffer(
            i,
            with_snapshot_on_view(b, lines, saved_marker(self.read_markers, b.full_name)),
        );
        if lines.len() > 0 {
            AppView {
                read_markers: put.read_markers.insert(b.full_name, marker_of(lines.last())),
                ..put
            }
        } else {
            put
        }
    }

    /// The state with a snapshot in a buffer that is not on view.
    pub open spec fn snapshot_aside(self, i: int, lines: Seq<LineView>) -> AppView {
        let b = self.buffers[i];
        self.with_buffer(
            i,
            with_snapshot_aside(b, lines, saved_marker(self.read_markers, b.full_name)),
        )
    }

    pub open spec fn snapshot_put(self, i: int, lines: Seq<LineView>) -> AppView {
        if self.selected_buffer_id == Some(self.buffers[i].id) {
            self.snapshot_on_view(i, lines)
        } else {
            self.snapshot_aside(i, lines)
        }
    }

    /// The state after a snapshot of a buffer came.
    pub open spec fn snapshot_taken(
        self,
        prefix: Seq<char>,
        raw_id: Seq<char>,
        requested: Option<usize>,
        lines: Seq<LineView>,
        hms: Seq<char>,
    ) -> AppView {
        let id = full_id(prefix, raw_id);
        let is_load_more = self.loading_more_buffer_id == Some(id);
        match buffer_place(self.buffers, id) {
            Some(i) => {
                let b = self.buffers[i];
                let ended = self.snapshot_put(i, lines).loading_ended(id);
                let noted = if is_load_more && b.plugin != "matrix"@ && requested is Some
                    && is_exhausted(lines.len() as usize, requested->0) {
                    ended.exhausted_noted(id)
                } else {
                    ended
                };
                noted.logged(prefix, hms, snapshot_report(raw_id, lines.len(), is_load_more, b.name))
            },
            None => self.loading_ended(id),
        }
    }

    /// The state after the relay refused to send a snapshot.
    pub open spec fn snapshot_refused(
        self,
        prefix: Seq<char>,
        raw_id: Seq<char>,
        message: Option<Seq<char>>,
        hms: Seq<char>,
    ) -> AppView {
        self.loading_ended(full_id(prefix, raw_id)).logged(
            prefix,
            hms,
            "← GET /api/buffers/"@ + raw_id + "/lines failed: "@ + match message {
                Some(text) => text,
                None => "unknown relay error"@,
            },
        )
    }

    /// The state after an answer to a request for lines.
    pub open spec fn snapshot_answered(
        self,
        prefix: Seq<char>,
        raw_id: Seq<char>,
        requested: Option<usize>,
        resp: WeeChatResponse,
        entries: Seq<RelayEntry>,
        hms: Seq<char>,
    ) -> AppView {
        if resp.code is Some && !(200 <= resp.code->0 < 300) {
            self.snapshot_refused(prefix, raw_id, opt_text(resp.message), hms)
        } else {
            self.snapshot_taken(
                prefix,
                raw_id,
                requested,
                snapshot_of(body_of(resp), entries),
                hms,
            )
        }
    }
}

impl WeeChatApp {
    fn saved_marker_of(&self, name: &str) -> (marker: Option<SavedReadMarker>)
        ensures
            opt_view(marker) == saved_marker(self@.read_markers, name@),
    {
        match self.read_markers.get(name) {
            Some(marker) => Some(marker.clone()),
            None => None,
        }
    }

    fn place_on_view(&mut self, i: usize, lines: VecDeque<Line>, saved: &Option<SavedReadMarker>)
        requires
            old(self).wf(),
            i < old(self).buffers@.len(),
        ensures
            final(self).wf(),
            final(self)@ == old(self)@.with_buffer(
                i as int,
                with_snapshot_on_view(
                    old(self)@.buffers[i as int],
                    views(lines@),
                    opt_view(*saved),
                ),
            ),
    {
        let ghost before = self.buffers@;
        assert(self@.buffers[i as int] == before[i as int]@);
        put_snapshot_on_view(&mut self.buffers[i], lines, saved);
        proof {
            lemma_touched(before, self.buffers@, i as int);
        }
    }

    fn place_aside(&mut self, i: usize, lines: VecDeque<Line>, saved: &Option<SavedReadMarker>)
        requires
            old(self).wf(),
            i < old(self).buffers@.len(),
        ensures
            final(self).wf(),
            final(self)@ == old(self)@.with_buffer(
                i as int,
                with_snapshot_aside(
                    old(self)@.buffers[i as int],
                    views(lines@),
                    opt_view(*saved),
                ),
            ),
    {
        let ghost before = self.buffers@;
        assert(self@.buffers[i as int] == before[i as int]@);
        put_snapshot_aside(&mut self.buffers[i], lines, saved);
        proof {
            lemma_touched(before, self.buffers@, i as int);
        }
    }

    fn put_snapshot(&mut self, i: usize, lines: VecDeque<Line>)
        requires
            old(self).wf(),
            i < old(self).buffers@.len(),
        ensures
            final(self).wf(),
            final(self)@ == old(self)@.snapshot_put(i as int, views(lines@)),
    {
        assert(self@.buffers[i as int] == self.buffers@[i as int]@);
        let full_name = self.buffers[i].full_name.clone();
        let saved = self.saved_marker_of(full_name.as_str());
        let on_view = opt_is(&self.selected_buffer_id, self.buffers[i].id.as_str());
        if on_view {
            let n: usize = lines.len();
            assert(views(lines@).len() == n);
            let last = if n > 0 {
                assert(views(lines@).last() == lines@[n - 1]@);
                Some(SavedReadMarker::from_line(&lines[n - 1]))
            } else {
                None
            };
            self.place_on_view(i, lines, &saved);
            match last {
                Some(marker) => {
                    self.save_marker(full_name, marker);
                },
                None => {},
            }
        } else {
            self.place_aside(i, lines, &saved);
        }
    }

    fn report_snapshot(
        &mut self,
        conn_prefix: &str,
        raw_id: &str,
        n: usize,
        is_load_more: bool,
        name: &str,
        clock: &Clock,
    )
        ensures
            final(self)@ == old(self)@.logged(
                conn_prefix@,
                clock.hms@,
                snapshot_report(raw_id@, n as nat, is_load_more, name@),
            ),
            old(self).wf() ==> final(self).wf(),
    {
        let mut entry = join3("← GET /api/buffers/", raw_id, "/lines  ");
        entry.append(usize_text(n).as_str());
        entry.append(" lines");
        if is_load_more {
            entry.append(" (load more)");
        }
        entry.append("  [#");
        entry.append(name);
        entry.append("]");
        assert(entry@ =~= snapshot_report(raw_id@, n as nat, is_load_more, name@));
        self.log_conn_for(conn_prefix, entry.as_str(), clock);
    }

    fn refuse_snapshot(
        &mut self,
        conn_prefix: &str,
        raw_id: &str,
        message: &Option<String>,
        clock: &Clock,
    )
        ensures
            final(self)@ == old(self)@.snapshot_refused(
                conn_prefix@,
                raw_id@,
                opt_text(*message),
                clock.hms@,
            ),
            old(self).wf() ==> final(self).wf(),
    {
        let id = full_id_of(conn_prefix, raw_id);
        self.end_loading(id.as_str());
        let mut entry = join3("← GET /api/buffers/", raw_id, "/lines failed: ");
        match message {
            Some(text) => {
                entry.append(text.as_str());
            },
            None => {
                entry.append("unknown relay error");
            },
        }
        self.log_conn_for(conn_prefix, entry.as_str(), clock);
    }

    fn take_snapshot(
        &mut self,
        conn_prefix: &str,
        raw_id: &str,
        requested: Option<usize>,
        lines: VecDeque<Line>,
        clock: &Clock,
    )
        requires
            old(self).wf(),
        ensures
            final(self).wf(),
            final(self)@ == old(self)@.snapshot_taken(
                conn_prefix@,
                raw_id@,
                requested,
                views(lines@),
                clock.hms@,
            ),
    {
        let id = full_id_of(conn_prefix, raw_id);
        let is_load_more = opt_is(&self.loading_more_buffer_id, id.as_str());
        let n: usize = lines.len();
        assert(views(lines@).len() == n);
        match self.buffer_idx_of(id.as_str()) {
            Some(i) => {
                assert(self@.buffers[i as int] == self.buffers@[i as int]@);
                let name = self.buffers[i].name.clone();
                let exhausted = is_load_more && !same_text(
                    self.buffers[i].plugin.as_str(),
                    "matrix",
                ) && match requested {
                    Some(count) => history_snapshot_is_exhausted(n, count),
                    None => false,
                };
                self.put_snapshot(i, lines);
                self.end_loading(id.as_str());
                if exhausted {
                    self.note_exhausted(id.as_str());
                }
                self.report_snapshot(conn_prefix, raw_id, n, is_load_more, name.as_str(), clock);
            },
            None => {
                self.end_loading(id.as_str());
            },
        }
    }

    /// Takes in a snapshot of the lines of a buffer.
    pub fn handle_buffer_lines(
        &mut self,
        conn_prefix: &str,
        raw_buffer_id: &str,
        requested_count: Option<usize>,
        resp: &WeeChatResponse,
        entries: &Vec<RelayEntry>,
        clock: &Clock,
    )
        requires
            old(self).wf(),
            entries@.len() == body_of(*resp).len(),
        ensures
            final(self).wf(),
            final(self)@ == old(self)@.snapshot_answered(
                conn_prefix@,
                raw_buffer_id@,
                requested_count,
                *resp,
                entries@,
                clock.hms@,
            ),
    {
        let refused = match resp.code {
            Some(code) => !(200 <= code && code < 300),
            None => false,
        };
        if refused {
            self.refuse_snapshot(conn_prefix, raw_buffer_id, &resp.message, clock);
            return ;
        }
        let lines = lines_from_snapshot(resp, entries);
        self.take_snapshot(conn_prefix, raw_buffer_id, requested_count, lines, clock);
    }
}

// ---------------------------------------------------------------------------
// Unread counts
// ---------------------------------------------------------------------------

/// The integer at a place of an array; zero where there is none.
pub open spec fn count_at(items: Seq<Json>, i: int) -> int {
    if 0 <= i < items.len() {
        match json_signed(items[i]) {
            Some(n) => n as int,
            None => 0,
        }
    } else {
        0
    }
}

/// The unread messages, private messages and highlights together, cut to 32
/// bits.
pub open spec fn unread_sum(items: Seq<Json>) -> u32 {
    ((count_at(items, 1) + count_at(items, 2) + count_at(items, 3)) % 0x1_0000_0000) as u32
}

fn count_in(items: &Vec<Json>, i: usize) -> (n: i64)
    ensures
        n == count_at(items@, i as int),
{
    if i < items.len() {
        match items[i].as_i64() {
            Some(n) => n,
            None => 0,
        }
    } else {
        0
    }
}

/// A signed number cut to 32 bits.
fn low_bits(n: i64) -> (low: u32)
    ensures
        low == n as int % 0x1_0000_0000,
{
    if n >= 0 {
        (n as u64 % 0x1_0000_0000) as u32
    } else {
        let shifted: u64 = (n as i128 + 0x1_0000_0000_0000_0000) as u64;
        assert(shifted as int % 0x1_0000_0000 == n as int % 0x1_0000_0000) by (nonlinear_arith)
            requires
                shifted as int == n as int + 0x1_0000_0000 * 0x1_0000_0000,
        ;
        (shifted % 0x1_0000_0000) as u32
    }
}

fn unread_in(items: &Vec<Json>) -> (n: u32)
    ensures
        n == unread_sum(items@),
{
    let a: u64 = low_bits(count_in(items, 1)) as u64;
    let b: u64 = low_bits(count_in(items, 2)) as u64;
    let c: u64 = low_bits(count_in(items, 3)) as u64;
    proof {
        let x = count_at(items@, 1);
        let y = count_at(items@, 2);
        let z = count_at(items@, 3);
        let m: int = 0x1_0000_0000;
        vstd::arithmetic::div_mod::lemma_add_mod_noop(x, y, m);
        vstd::arithmetic::div_mod::lemma_add_mod_noop(x + y, z, m);
        vstd::arithmetic::div_mod::lemma_add_mod_noop(x % m + y % m, z % m, m);
        vstd::arithmetic::div_mod::lemma_mod_twice(z, m);
    }
    ((a + b + c) % 0x1_0000_0000) as u32
}

pub open spec fn hot_activity(priority: i64) -> BufferActivity {
    if priority == 3 {
        BufferActivity::Highlight
    } else if priority == 2 || priority == 1 {
        BufferActivity::Message
    } else {
        BufferActivity::Metadata
    }
}

/// A buffer with what the relay says is unread in it.
pub open spec fn with_hot_entry(b: BufferView, obj: Seq<JsonMember>) -> BufferView {
    BufferView {
        activity: hot_activity(member_whole_or(obj, "priority"@, 0)),
        unread_count: match member(obj, "count"@) {
            Some(Json::Array(items)) => unread_sum(items@),
            _ => b.unread_count,
        },
        ..b
    }
}

fn apply_hot_entry(b: &mut Buffer, obj: &Vec<JsonMember>)
    ensures
        final(b)@ == with_hot_entry(old(b)@, obj@),
{
    let priority: i64 = get_whole_or(obj, "priority", 0);
    b.activity = if priority == 3 {
        BufferActivity::Highlight
    } else if priority == 2 || priority == 1 {
        BufferActivity::Message
    } else {
        BufferActivity::Metadata
    };
    match get(obj, "count") {
        Some(Json::Array(items)) => {
            b.unread_count = unread_in(items);
        },
        _ => {},
    }
}

impl AppView {
    /// Whether one of the buffers with an id is muted.
    pub open spec fn is_muted(self, id: Seq<char>) -> bool {
        first_index(self.buffers, |b: BufferView| b.id == id && b.muted) is Some
    }

    /// Whether what the relay says is unread in a buffer is passed over: the
    /// buffer is on view, muted, or noted as read.
    pub open spec fn ignores_counts(self, id: Seq<char>) -> bool {
        self.selected_buffer_id == Some(id) || self.is_muted(id) || self.cleared_buffer_ids.contains(
            id,
        ) || match buffer_of(self.buffers, id) {
            Some(b) => self.cleared_buffer_names.contains(b.full_name),
            None => false,
        }
    }

    /// The state after one entry about unread lines.
    pub open spec fn hot_entry(self, prefix: Seq<char>, value: Json) -> AppView {
        match json_object(value) {
            Some(obj) => match member_id(obj, "buffer_id"@) {
                Some(raw_id) => if self.ignores_counts(full_id(prefix, raw_id)) {
                    self
                } else {
                    self.changing(
                        full_id(prefix, raw_id),
                        |b: BufferView| with_hot_entry(b, obj),
                    )
                },
                None => self,
            },
            None => self,
        }
    }

    /// The state after the first `n` entries about unread lines.
    pub open spec fn hot_entries(self, prefix: Seq<char>, resp: WeeChatResponse, n: nat) -> AppView
        decreases n,
    {
        if n == 0 || n > body_of(resp).len() {
            self
        } else {
            self.hot_entries(prefix, resp, (n - 1) as nat).hot_entry(prefix, body_of(resp)[n - 1])
        }
    }

    /// The state after an answer about unread lines.
    pub open spec fn hotlist_taken(self, prefix: Seq<char>, resp: WeeChatResponse, hms: Seq<char>) -> AppView {
        let n = body_of(resp).len();
        let logged = if opt_text(resp.request_id) == Some("_hotlist"@) {
            self.logged(prefix, hms, hotlist_report(n))
        } else {
            self
        };
        logged.hot_entries(prefix, resp, n)
    }
}

pub open spec fn hotlist_report(n: nat) -> Seq<char> {
    "← GET /api/hotlist  "@ + decimal(n) + " active entr"@ + (if n == 1 {
        "y"@
    } else {
        "ies"@
    })
}

impl WeeChatApp {
    fn has_muted(&self, id: &str) -> (yes: bool)
        ensures
            yes == self@.is_muted(id@),
    {
        let found = |b: &Buffer| -> (r: bool)
            ensures
                r == (b@.id == id@ && b@.muted),
            { same_text(b.id.as_str(), id) && b.muted };
        crate::seqs::position_from(
            self.buffers.as_slice(),
            0,
            found,
            Ghost(|b: BufferView| b.id == id@ && b.muted),
        ).is_some()
    }

    fn does_ignore_counts(&self, id: &str) -> (yes: bool)
        requires
            self.wf(),
        ensures
            yes == self@.ignores_counts(id@),
    {
        opt_is(&self.selected_buffer_id, id) || self.has_muted(id)
            || self.cleared_buffer_ids.contains(id) || match self.buffer_by_id(id) {
            Some(b) => self.cleared_buffer_names.contains(b.full_name.as_str()),
            None => false,
        }
    }

    fn handle_hot_entry(&mut self, conn_prefix: &str, resp: &WeeChatResponse, i: usize)
        requires
            old(self).wf(),
            i < body_of(*resp).len(),
        ensures
            final(self).wf(),
            final(self)@ == old(self)@.hot_entry(conn_prefix@, body_of(*resp)[i as int]),
    {
        let obj = match object_at(resp, i) {
            Some(obj) => obj,
            None => {
                return ;
            },
        };
        let raw_id = match get_id(obj, "buffer_id") {
            Some(raw_id) => raw_id,
            None => {
                return ;
            },
        };
        let id = full_id_of(conn_prefix, raw_id.as_str());
        if self.does_ignore_counts(id.as_str()) {
            return ;
        }
        match self.buffer_idx_of(id.as_str()) {
            Some(k) => {
                let ghost before = self.buffers@;
                assert(self@.buffers[k as int] == before[k as int]@);
                apply_hot_entry(&mut self.buffers[k], obj);
                proof {
                    lemma_touched(before, self.buffers@, k as int);
                }
            },
            None => {},
        }
    }

    /// Takes in what the relay says is unread.
    pub fn handle_hotlist(&mut self, conn_prefix: &str, resp: &WeeChatResponse, clock: &Clock)
        requires
            old(self).wf(),
        ensures
            final(self).wf(),
            final(self)@ == old(self)@.hotlist_taken(conn_prefix@, *resp, clock.hms@),
    {
        let n: usize = body_len(resp);
        if opt_is(&resp.request_id, "_hotlist") {
            let mut entry = "← GET /api/hotlist  ".to_owned();
            entry.append(usize_text(n).as_str());
            entry.append(" active entr");
            entry.append(
                if n == 1 {
                    "y"
                } else {
                    "ies"
                },
            );
            self.log_conn_for(conn_prefix, entry.as_str(), clock);
        }
        let ghost start = self@;
        let mut i: usize = 0;
        while i < n
            invariant
                i <= n,
                n == body_of(*resp).len(),
                self.wf(),
                self@ == start.hot_entries(conn_prefix@, *resp, i as nat),
            decreases n - i,
        {
            self.handle_hot_entry(conn_prefix, resp, i);
            i = i + 1;
        }
    }
}

/// Unread counts that the relay restores never touch a buffer that is on view,
/// muted, or noted as read.
pub proof fn counts_pass_over_read_buffers(state: AppView, prefix: Seq<char>, value: Json)
    requires
        json_object(value) is Some,
        member_id(json_object(value)->0, "buffer_id"@) is Some,
        state.ignores_counts(full_id(prefix, member_id(json_object(value)->0, "buffer_id"@)->0)),
    ensures
        state.hot_entry(prefix, value) == state,
{
}

} // verus!
