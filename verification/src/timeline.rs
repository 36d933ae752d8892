//! What a conversation shows, from top to bottom.
use vstd::prelude::*;
use vstd::hash_set::StringHashSet;
use std::collections::VecDeque;
use crate::collections::{TextMap, TextSet};
use crate::markers::{visit_marker_location, VisitMarkerLocation};
use crate::media::{is_download_report, is_matrix_media_status_line};
use crate::models::{
    mentions_any, message_mentions_any_alias, Buffer, BufferActivity, BufferView, Line, LineView,
    MatrixReplyContext, MatrixReplyLineKind, ReplyView,
};
use crate::seqs::{last_index, lemma_last_index, lemma_last_is, views};
use crate::text::{
    clone_opt, contains, decimal, join3, lowercase, opt_str, opt_text, same_opt, same_text,
    str_contains, texts, to_lowercase, usize_text,
};
use crate::threads::{
    body_context, body_is_visible, group_thread_lines, is_redundant_header,
    matrix_event_has_visible_body_line, quote_text, redundant_room_reply_header, reply_contexts,
    reply_contexts_by_event, reply_quote_text, room_reply_context_for_body_line, thread_blocks,
    ContextView, ThreadReplyContext,
};

verus! {

// ---------------------------------------------------------------------------
// The model
// ---------------------------------------------------------------------------

/// The local day and year of a line.
#[derive(Debug)]
pub struct LineDay {
    pub date: String,
    pub year: String,
}

pub ghost struct DayView {
    pub date: Seq<char>,
    pub year: Seq<char>,
}

impl View for LineDay {
    type V = DayView;

    open spec fn view(&self) -> DayView {
        DayView { date: self.date@, year: self.year@ }
    }
}

/// Something that a conversation shows.
#[derive(Debug, Clone, Copy, PartialEq, Eq, Structural)]
pub enum TimelineItem {
    /// The place that was on view before older lines came in.
    Anchor,
    /// The first line of a year, taken over from a replaced room.
    ArchivedYear { line: usize },
    /// The first line of a day.
    Day { line: usize },
    /// What follows was not there at the last visit.
    NewMessages,
    Row {
        line: usize,
        /// Whether the sender stands above already.
        continues_event: bool,
        is_inherited: bool,
        is_own_mention: bool,
    },
}

/// What decides what is shown.
pub ghost struct TimelineView {
    pub messages: Seq<LineView>,
    pub days: Seq<DayView>,
    pub inherited: Set<Seq<char>>,
    pub show_filtered: bool,
    pub query: Option<Seq<char>>,
    pub anchor: Option<(Seq<char>, usize)>,
    pub marker: VisitMarkerLocation,
    pub aliases: Seq<Seq<char>>,
}

/// What has been shown so far.
pub ghost struct ShownView {
    pub marker_shown: bool,
    pub last_date: Option<Seq<char>>,
    pub years: Set<Seq<char>>,
    pub last_event: Option<Seq<char>>,
}

/// Whether a search finds what a line answers.
pub open spec fn context_matches(context: ContextView, query: Seq<char>) -> bool {
    (context.sender is Some && contains(lowercase(context.sender->0), query)) || exists|i: int|
        0 <= i < context.quotes.len() && contains(lowercase(#[trigger] context.quotes[i]), query)
}

impl TimelineView {
    pub open spec fn contexts(self) -> Map<Seq<char>, ContextView> {
        reply_contexts(self.messages)
    }

    /// Whether a line is shown at all.
    pub open spec fn shows(self, line: LineView) -> bool {
        (self.show_filtered || line.displayed) && !is_download_report(line.plain_message)
    }

    /// Whether the search leaves a line in.
    pub open spec fn finds(self, line: LineView) -> bool {
        match self.query {
            Some(q) => contains(line.plain_prefix_lower, q) || contains(line.plain_message_lower, q)
                || line.matrix_event_id is Some && self.contexts().contains_key(
                line.matrix_event_id->0,
            ) && context_matches(self.contexts()[line.matrix_event_id->0], q),
            None => true,
        }
    }

    /// Whether a line is a quote that stands with its header already.
    pub open spec fn is_folded_quote(self, line: LineView) -> bool {
        line.matrix_reply is Some && line.matrix_reply->0.kind is Quote && line.matrix_event_id
            is Some && self.contexts().contains_key(line.matrix_event_id->0)
            && self.contexts()[line.matrix_event_id->0].has_header
    }

    pub open spec fn is_anchor(self, line: LineView) -> bool {
        self.anchor is Some && line.id == (self.anchor->0).0 && self.messages.len() > (
        self.anchor->0).1
    }

    /// Whether a line has a row of its own.
    pub open spec fn has_row(self, line: LineView) -> bool {
        self.shows(line) && self.finds(line) && !self.is_folded_quote(line) && !is_redundant_header(
            self.messages,
            line,
        )
    }

    pub open spec fn row(self, shown: ShownView, i: int) -> TimelineItem {
        let line = self.messages[i];
        TimelineItem::Row {
            line: i as usize,
            continues_event: line.matrix_event_id is Some && shown.last_event
                == line.matrix_event_id,
            is_inherited: self.inherited.contains(line.id),
            is_own_mention: line.highlight || mentions_any(line.plain_message, self.aliases),
        }
    }

    /// What stands above the row of a line.
    pub open spec fn headings(self, shown: ShownView, i: int) -> Seq<TimelineItem> {
        let line = self.messages[i];
        let day = self.days[i];
        let archived = if self.inherited.contains(line.id) && !shown.years.contains(day.year) {
            seq![TimelineItem::ArchivedYear { line: i as usize }]
        } else {
            Seq::empty()
        };
        let dated = if shown.last_date != Some(day.date) {
            archived.push(TimelineItem::Day { line: i as usize })
        } else {
            archived
        };
        if !shown.marker_shown && self.marker.precedes(i) {
            dated.push(TimelineItem::NewMessages)
        } else {
            dated
        }
    }

    /// What a line shows.
    pub open spec fn items(self, shown: ShownView, i: int) -> Seq<TimelineItem> {
        let line = self.messages[i];
        if !self.shows(line) {
            Seq::empty()
        } else {
            let anchor = if self.is_anchor(line) {
                seq![TimelineItem::Anchor]
            } else {
                Seq::empty()
            };
            if !self.finds(line) {
                anchor
            } else if self.has_row(line) {
                anchor + self.headings(shown, i).push(self.row(shown, i))
            } else {
                anchor + self.headings(shown, i)
            }
        }
    }

    /// What has been shown after a line.
    pub open spec fn after(self, shown: ShownView, i: int) -> ShownView {
        let line = self.messages[i];
        if !self.shows(line) || !self.finds(line) {
            shown
        } else {
            ShownView {
                marker_shown: shown.marker_shown || self.marker.precedes(i),
                last_date: Some(self.days[i].date),
                years: if self.inherited.contains(line.id) {
                    shown.years.insert(self.days[i].year)
                } else {
                    shown.years
                },
                last_event: if self.is_folded_quote(line) {
                    if body_is_visible(self.messages, line.matrix_event_id->0) {
                        shown.last_event
                    } else {
                        line.matrix_event_id
                    }
                } else if is_redundant_header(self.messages, line) {
                    shown.last_event
                } else {
                    line.matrix_event_id
                },
            }
        }
    }

    /// What has been shown after the first `n` lines.
    pub open spec fn shown(self, n: int) -> ShownView
        decreases n,
    {
        if n <= 0 {
            ShownView {
                marker_shown: false,
                last_date: None,
                years: Set::empty(),
                last_event: None,
            }
        } else {
            self.after(self.shown(n - 1), n - 1)
        }
    }

    /// What the first `n` lines show.
    pub open spec fn laid_out(self, n: int) -> Seq<TimelineItem>
        decreases n,
    {
        if n <= 0 {
            Seq::empty()
        } else {
            self.laid_out(n - 1) + self.items(self.shown(n - 1), n - 1)
        }
    }
}

// ---------------------------------------------------------------------------
// Laying out
// ---------------------------------------------------------------------------

fn does_context_match(context: &ThreadReplyContext, query: &str) -> (yes: bool)
    ensures
        yes == context_matches(context@, query@),
{
    match &context.sender {
        Some(sender) => {
            let lowered = to_lowercase(sender.as_str());
            if str_contains(lowered.as_str(), query) {
                return true;
            }
        },
        None => {},
    }
    let mut i: usize = 0;
    while i < context.quotes.len()
        invariant
            i <= context.quotes@.len(),
            forall|j: int|
                0 <= j < i ==> !contains(lowercase(#[trigger] texts(context.quotes@)[j]), query@),
        decreases context.quotes@.len() - i,
    {
        assert(texts(context.quotes@)[i as int] == context.quotes@[i as int]@);
        let lowered = to_lowercase(context.quotes[i].as_str());
        if str_contains(lowered.as_str(), query) {
            assert(contains(lowercase(context@.quotes[i as int]), query@));
            return true;
        }
        i = i + 1;
    }
    false
}

/// What a conversation shows, and what decides on it.
pub struct Timeline<'a> {
    pub messages: &'a VecDeque<Line>,
    /// The local day of every line.
    pub days: &'a Vec<LineDay>,
    /// The lines that come from replaced rooms.
    pub inherited: &'a StringHashSet,
    pub show_filtered: bool,
    pub search: &'a str,
    pub anchor: Option<&'a (String, usize)>,
    pub visit_marker: Option<&'a str>,
    pub aliases: &'a Vec<String>,
}

impl<'a> Timeline<'a> {
    pub open spec fn model(&self) -> TimelineView {
        TimelineView {
            messages: views(self.messages@),
            days: views(self.days@),
            inherited: self.inherited@,
            show_filtered: self.show_filtered,
            query: if self.search@.len() > 0 {
                Some(lowercase(self.search@))
            } else {
                None
            },
            anchor: match self.anchor {
                Some((id, len)) => Some((id@, *len)),
                None => None,
            },
            marker: match self.visit_marker {
                Some(id) => crate::markers::marker_place(views(self.messages@), id@),
                None => VisitMarkerLocation::Missing,
            },
            aliases: texts(self.aliases@),
        }
    }

    fn does_show(&self, line: &Line) -> (yes: bool)
        ensures
            yes == self.model().shows(line@),
    {
        (self.show_filtered || line.displayed) && !is_matrix_media_status_line(
            line.plain_message.as_str(),
        )
    }

    fn does_find(
        &self,
        line: &Line,
        query: &Option<String>,
        contexts: &TextMap<ThreadReplyContext>,
    ) -> (yes: bool)
        requires
            opt_text(*query) == self.model().query,
            contexts@ == self.model().contexts(),
        ensures
            yes == self.model().finds(line@),
    {
        match query {
            Some(q) => {
                if str_contains(line.plain_prefix_lower.as_str(), q.as_str()) || str_contains(
                    line.plain_message_lower.as_str(),
                    q.as_str(),
                ) {
                    return true;
                }
                match &line.matrix_event_id {
                    Some(event_id) => match contexts.get(event_id.as_str()) {
                        Some(context) => does_context_match(context, q.as_str()),
                        None => false,
                    },
                    None => false,
                }
            },
            None => true,
        }
    }

    fn is_folded(&self, line: &Line, contexts: &TextMap<ThreadReplyContext>) -> (yes: bool)
        requires
            contexts@ == self.model().contexts(),
        ensures
            yes == self.model().is_folded_quote(line@),
    {
        match (&line.matrix_reply, &line.matrix_event_id) {
            (Some(reply), Some(event_id)) => match reply.kind {
                MatrixReplyLineKind::Quote => match contexts.get(event_id.as_str()) {
                    Some(context) => context.has_header,
                    None => false,
                },
                MatrixReplyLineKind::Header => false,
            },
            _ => false,
        }
    }

    fn is_at_anchor(&self, line: &Line) -> (yes: bool)
        ensures
            yes == self.model().is_anchor(line@),
    {
        match self.anchor {
            Some((id, len)) => same_text(line.id.as_str(), id.as_str()) && self.messages.len()
                > *len,
            None => false,
        }
    }

    fn push_headings(
        &self,
        items: &mut Vec<TimelineItem>,
        shown: &mut Shown,
        i: usize,
        marker: &VisitMarkerLocation,
    )
        requires
            i < self.messages@.len(),
            self.days@.len() == self.messages@.len(),
            *marker == self.model().marker,
        ensures
            final(items)@ == old(items)@ + self.model().headings(old(shown)@, i as int),
            final(shown)@ == (ShownView {
                marker_shown: old(shown)@.marker_shown || self.model().marker.precedes(i as int),
                last_date: Some(self.model().days[i as int].date),
                years: if self.inherited@.contains(self.messages@[i as int]@.id) {
                    old(shown)@.years.insert(self.model().days[i as int].year)
                } else {
                    old(shown)@.years
                },
                ..old(shown)@
            }),
    {
        let ghost before = items@;
        let ghost was = shown@;
        let line = &self.messages[i];
        let day = &self.days[i];
        assert(views(self.messages@)[i as int] == line@);
        assert(views(self.days@)[i as int] == day@);
        if self.inherited.contains(line.id.as_str()) {
            if !shown.years.contains(day.year.as_str()) {
                items.push(TimelineItem::ArchivedYear { line: i });
            }
            shown.years.insert(day.year.clone());
        }
        let dated = match &shown.last_date {
            Some(date) => same_text(date.as_str(), day.date.as_str()),
            None => false,
        };
        if !dated {
            items.push(TimelineItem::Day { line: i });
        }
        shown.last_date = Some(day.date.clone());
        if marker.is_before(i) {
            if !shown.marker_shown {
                items.push(TimelineItem::NewMessages);
            }
            shown.marker_shown = true;
        }
        assert(items@ =~= before + self.model().headings(was, i as int));
    }

    fn row_of(&self, i: usize, shown: &Shown) -> (row: TimelineItem)
        requires
            i < self.messages@.len(),
        ensures
            row == self.model().row(shown@, i as int),
    {
        let line = &self.messages[i];
        assert(views(self.messages@)[i as int] == line@);
        TimelineItem::Row {
            line: i,
            continues_event: line.matrix_event_id.is_some() && same_opt(
                &shown.last_event,
                &line.matrix_event_id,
            ),
            is_inherited: self.inherited.contains(line.id.as_str()),
            is_own_mention: line.highlight || message_mentions_any_alias(
                line.plain_message.as_str(),
                self.aliases.as_slice(),
            ),
        }
    }

    fn body_is_shown(&self, line: &Line) -> (yes: bool)
        ensures
            yes == (line@.matrix_event_id is Some && body_is_visible(
                self.model().messages,
                line@.matrix_event_id->0,
            )),
    {
        match &line.matrix_event_id {
            Some(event_id) => matrix_event_has_visible_body_line(self.messages, event_id.as_str()),
            None => false,
        }
    }

    fn push_line(
        &self,
        items: &mut Vec<TimelineItem>,
        shown: &mut Shown,
        i: usize,
        query: &Option<String>,
        contexts: &TextMap<ThreadReplyContext>,
        marker: &VisitMarkerLocation,
    )
        requires
            i < self.messages@.len(),
            self.days@.len() == self.messages@.len(),
            contexts@ == self.model().contexts(),
            opt_text(*query) == self.model().query,
            *marker == self.model().marker,
        ensures
            final(items)@ == old(items)@ + self.model().items(old(shown)@, i as int),
            final(shown)@ == self.model().after(old(shown)@, i as int),
    {
        let ghost model = self.model();
        let ghost before = items@;
        let ghost was = shown@;
        let line = &self.messages[i];
        assert(model.messages[i as int] == line@);
        if !self.does_show(line) {
            assert(items@ =~= before + model.items(was, i as int));
            return ;
        }
        if self.is_at_anchor(line) {
            items.push(TimelineItem::Anchor);
        }
        if !self.does_find(line, query, contexts) {
            assert(items@ =~= before + model.items(was, i as int));
            return ;
        }
        let ghost anchored = items@;
        let row = self.row_of(i, &*shown);
        self.push_headings(items, shown, i, marker);
        if self.is_folded(line, contexts) {
            if !self.body_is_shown(line) {
                shown.last_event = clone_opt(&line.matrix_event_id);
            }
        } else if !redundant_room_reply_header(self.messages, line) {
            items.push(row);
            shown.last_event = clone_opt(&line.matrix_event_id);
        }
        assert(items@ =~= before + model.items(was, i as int));
    }

    /// What the conversation shows, from top to bottom.
    pub fn lay_out(&self) -> (items: Vec<TimelineItem>)
        requires
            self.days@.len() == self.messages@.len(),
        ensures
            items@ == self.model().laid_out(self.messages@.len() as int),
    {
        let contexts = reply_contexts_by_event(self.messages);
        let query: Option<String> = if self.search.is_empty() {
            None
        } else {
            Some(to_lowercase(self.search))
        };
        let marker = match self.visit_marker {
            Some(id) => visit_marker_location(self.messages, id),
            None => VisitMarkerLocation::Missing,
        };
        let ghost model = self.model();
        let mut shown = Shown {
            marker_shown: false,
            last_date: None,
            years: TextSet::new(),
            last_event: None,
        };
        let mut items: Vec<TimelineItem> = Vec::new();
        let mut i: usize = 0;
        assert(items@ =~= model.laid_out(0));
        while i < self.messages.len()
            invariant
                i <= self.messages@.len(),
                self.days@.len() == self.messages@.len(),
                model == self.model(),
                contexts@ == model.contexts(),
                opt_text(query) == model.query,
                marker == model.marker,
                items@ == model.laid_out(i as int),
                shown@ == model.shown(i as int),
            decreases self.messages@.len() - i,
        {
            self.push_line(&mut items, &mut shown, i, &query, &contexts, &marker);
            i = i + 1;
        }
        items
    }
}

/// What has been shown so far.
struct Shown {
    marker_shown: bool,
    last_date: Option<String>,
    years: TextSet,
    last_event: Option<String>,
}

impl View for Shown {
    type V = ShownView;

    closed spec fn view(&self) -> ShownView {
        ShownView {
            marker_shown: self.marker_shown,
            last_date: opt_text(self.last_date),
            years: self.years@,
            last_event: opt_text(self.last_event),
        }
    }
}

// ---------------------------------------------------------------------------
// What holds of every layout
// ---------------------------------------------------------------------------


proof fn lemma_items(t: TimelineView, shown: ShownView, i: int)
    requires
        0 <= i < t.messages.len(),
        t.messages.len() <= usize::MAX,
    ensures
        ({
            let items = t.items(shown, i);
            &&& forall|k: int|
                0 <= k < items.len() && (#[trigger] items[k]) is Row ==> items[k]->Row_line == i
                    && t.has_row(t.messages[i]) && k == items.len() - 1
            &&& t.has_row(t.messages[i]) ==> items.len() > 0 && items.last() is Row
                && items.last()->Row_line == i
            &&& forall|k: int|
                0 <= k < items.len() && (#[trigger] items[k]) is NewMessages ==> !shown.marker_shown
                    && t.after(shown, i).marker_shown
            &&& forall|k: int, m: int|
                0 <= k < items.len() && 0 <= m < items.len() && (#[trigger] items[k]) is NewMessages
                    && (#[trigger] items[m]) is NewMessages ==> k == m
        }),
{
}

/// The rows of a conversation stand in the order of its lines, and a line has
/// one row or none.
pub proof fn rows_keep_the_order_of_the_lines(t: TimelineView, n: int)
    requires
        0 <= n <= t.messages.len(),
        t.messages.len() <= usize::MAX,
    ensures
        forall|a: int, b: int|
            0 <= a < b < t.laid_out(n).len() && (#[trigger] t.laid_out(n)[a]) is Row && (
            #[trigger] t.laid_out(n)[b]) is Row ==> t.laid_out(n)[a]->Row_line < t.laid_out(
                n,
            )[b]->Row_line,
        forall|a: int|
            0 <= a < t.laid_out(n).len() && (#[trigger] t.laid_out(n)[a]) is Row ==> t.laid_out(
                n,
            )[a]->Row_line < n,
    decreases n,
{
    if n > 0 {
        rows_keep_the_order_of_the_lines(t, n - 1);
        lemma_items(t, t.shown(n - 1), n - 1);
        let head = t.laid_out(n - 1);
        let tail = t.items(t.shown(n - 1), n - 1);
        assert(t.laid_out(n) == head + tail);
        assert forall|a: int| 0 <= a < t.laid_out(n).len() && (#[trigger] t.laid_out(n)[a]) is Row implies t.laid_out(
            n,
        )[a]->Row_line < n by {
            if a < head.len() {
                assert(head[a] == t.laid_out(n)[a]);
            } else {
                assert(tail[a - head.len()] == t.laid_out(n)[a]);
            }
        }
        assert forall|a: int, b: int|
            0 <= a < b < t.laid_out(n).len() && (#[trigger] t.laid_out(n)[a]) is Row && (
            #[trigger] t.laid_out(n)[b]) is Row implies t.laid_out(n)[a]->Row_line < t.laid_out(
            n,
        )[b]->Row_line by {
            if b < head.len() {
                assert(head[a] == t.laid_out(n)[a] && head[b] == t.laid_out(n)[b]);
            } else if a < head.len() {
                assert(head[a] == t.laid_out(n)[a]);
                assert(tail[b - head.len()] == t.laid_out(n)[b]);
            } else {
                assert(tail[a - head.len()] == t.laid_out(n)[a]);
                assert(tail[b - head.len()] == t.laid_out(n)[b]);
            }
        }
    }
}

/// A line has a row exactly where nothing hides it: it is displayed or hidden
/// lines are wanted, it is no report of a download, the search finds it, and it
/// is not told by another row already.
pub proof fn a_line_has_a_row_where_nothing_hides_it(t: TimelineView, n: int, i: int)
    requires
        0 <= i < n <= t.messages.len(),
        t.messages.len() <= usize::MAX,
    ensures
        (exists|a: int|
            0 <= a < t.laid_out(n).len() && (#[trigger] t.laid_out(n)[a]) is Row && t.laid_out(
                n,
            )[a]->Row_line == i) <==> t.has_row(t.messages[i]),
    decreases n,
{
    lemma_items(t, t.shown(n - 1), n - 1);
    rows_keep_the_order_of_the_lines(t, n - 1);
    let head = t.laid_out(n - 1);
    let tail = t.items(t.shown(n - 1), n - 1);
    let all = t.laid_out(n);
    assert(all == head + tail);
    if i == n - 1 {
        if t.has_row(t.messages[i]) {
            assert(all[all.len() - 1] == tail.last());
        }
        if exists|a: int| 0 <= a < all.len() && (#[trigger] all[a]) is Row && all[a]->Row_line == i {
            let a = choose|a: int|
                0 <= a < all.len() && (#[trigger] all[a]) is Row && all[a]->Row_line == i;
            if a < head.len() {
                assert(head[a] == all[a]);
            } else {
                assert(tail[a - head.len()] == all[a]);
            }
        }
    } else {
        a_line_has_a_row_where_nothing_hides_it(t, n - 1, i);
        if t.has_row(t.messages[i]) {
            let a = choose|a: int|
                0 <= a < head.len() && (#[trigger] head[a]) is Row && head[a]->Row_line == i;
            assert(all[a] == head[a]);
        }
        if exists|a: int| 0 <= a < all.len() && (#[trigger] all[a]) is Row && all[a]->Row_line == i {
            let a = choose|a: int|
                0 <= a < all.len() && (#[trigger] all[a]) is Row && all[a]->Row_line == i;
            if a < head.len() {
                assert(head[a] == all[a]);
            } else {
                assert(tail[a - head.len()] == all[a]);
            }
        }
    }
}

/// The line that parts old from new messages is drawn once at most.
pub proof fn new_messages_are_marked_once(t: TimelineView, n: int)
    requires
        0 <= n <= t.messages.len(),
        t.messages.len() <= usize::MAX,
    ensures
        forall|a: int, b: int|
            0 <= a < t.laid_out(n).len() && 0 <= b < t.laid_out(n).len() && (#[trigger] t.laid_out(
                n,
            )[a]) is NewMessages && (#[trigger] t.laid_out(n)[b]) is NewMessages ==> a == b,
        forall|a: int|
            0 <= a < t.laid_out(n).len() && (#[trigger] t.laid_out(n)[a]) is NewMessages
                ==> t.shown(n).marker_shown,
    decreases n,
{
    if n > 0 {
        new_messages_are_marked_once(t, n - 1);
        lemma_items(t, t.shown(n - 1), n - 1);
        let head = t.laid_out(n - 1);
        let tail = t.items(t.shown(n - 1), n - 1);
        let all = t.laid_out(n);
        assert(all == head + tail);
        assert forall|a: int| 0 <= a < all.len() && (#[trigger] all[a]) is NewMessages implies t.shown(
            n,
        ).marker_shown by {
            if a < head.len() {
                assert(head[a] == all[a]);
            } else {
                assert(tail[a - head.len()] == all[a]);
            }
        }
        assert forall|a: int, b: int|
            0 <= a < all.len() && 0 <= b < all.len() && (#[trigger] all[a]) is NewMessages && (
            #[trigger] all[b]) is NewMessages implies a == b by {
            if a < head.len() {
                assert(head[a] == all[a]);
            } else {
                assert(tail[a - head.len()] == all[a]);
            }
            if b < head.len() {
                assert(head[b] == all[b]);
            } else {
                assert(tail[b - head.len()] == all[b]);
            }
        }
    }
}

// ---------------------------------------------------------------------------
// Cards and buttons on a row
// ---------------------------------------------------------------------------

/// What a reply line answers by itself.
pub open spec fn lone_context(line: LineView, reply: ReplyView) -> ContextView {
    ContextView {
        target_event_id: reply.event_id,
        sender: reply.sender,
        quotes: if reply.kind is Quote {
            seq![quote_text(line.plain_message, line.plain_prefix)]
        } else {
            Seq::empty()
        },
        has_header: reply.kind is Header,
    }
}

/// The card on a row that says what it answers: on a reply line in place of a
/// text, and otherwise above the first line of an event.
pub open spec fn reply_card(
    line: LineView,
    contexts: Map<Seq<char>, ContextView>,
    continues_event: bool,
) -> Option<ContextView> {
    match line.matrix_reply {
        Some(reply) => if line.matrix_event_id is Some && contexts.contains_key(
            line.matrix_event_id->0,
        ) {
            Some(contexts[line.matrix_event_id->0])
        } else {
            Some(lone_context(line, reply))
        },
        None => if continues_event {
            None
        } else {
            body_context(line, contexts)
        },
    }
}

fn lone_context_of(line: &Line, reply: &MatrixReplyContext) -> (context: ThreadReplyContext)
    ensures
        context@ == lone_context(line@, reply@),
{
    let mut quotes: Vec<String> = Vec::new();
    let has_header = match reply.kind {
        MatrixReplyLineKind::Quote => {
            quotes.push(reply_quote_text(line));
            false
        },
        MatrixReplyLineKind::Header => true,
    };
    let context = ThreadReplyContext {
        target_event_id: clone_opt(&reply.event_id),
        sender: clone_opt(&reply.sender),
        quotes,
        has_header,
    };
    assert(context@.quotes =~= lone_context(line@, reply@).quotes);
    context
}

/// The card on a row that says what it answers.
pub fn reply_card_of(
    line: &Line,
    contexts: &TextMap<ThreadReplyContext>,
    continues_event: bool,
) -> (card: Option<ThreadReplyContext>)
    ensures
        crate::models::opt_view(card) == reply_card(line@, contexts@, continues_event),
{
    match &line.matrix_reply {
        Some(reply) => {
            match &line.matrix_event_id {
                Some(event_id) => match contexts.get(event_id.as_str()) {
                    Some(context) => {
                        return Some(context.clone());
                    },
                    None => {},
                },
                None => {},
            }
            Some(lone_context_of(line, reply))
        },
        None => if continues_event {
            None
        } else {
            match room_reply_context_for_body_line(line, contexts) {
                Some(context) => Some(context.clone()),
                None => None,
            }
        },
    }
}

/// A thread that a message began.
#[derive(Debug)]
pub struct ThreadSummary {
    pub buffer_id: String,
    pub replies: usize,
    pub unread: bool,
}

pub ghost struct SummaryView {
    pub buffer_id: Seq<char>,
    pub replies: usize,
    pub unread: bool,
}

impl View for ThreadSummary {
    type V = SummaryView;

    open spec fn view(&self) -> SummaryView {
        SummaryView { buffer_id: self.buffer_id@, replies: self.replies, unread: self.unread }
    }
}

pub open spec fn reply_count(b: BufferView) -> int {
    let blocks = thread_blocks(b.messages).len();
    if blocks > 0 {
        blocks - 1
    } else {
        0
    }
}

/// Whether a buffer shows a thread of a room.
pub open spec fn is_thread_in(b: BufferView, room_id: Seq<char>) -> bool {
    b.is_thread() && b.matrix_room_id == Some(room_id) && b.matrix_thread_root is Some
}

/// The threads of a room, by the event that began each.
pub open spec fn summaries(buffers: Seq<BufferView>, room_id: Option<Seq<char>>) -> Map<
    Seq<char>,
    SummaryView,
>
    decreases buffers.len(),
{
    if room_id is None || buffers.len() == 0 {
        Map::empty()
    } else {
        let before = summaries(buffers.drop_last(), room_id);
        let b = buffers.last();
        if is_thread_in(b, room_id->0) {
            before.insert(
                b.matrix_thread_root->0,
                SummaryView {
                    buffer_id: b.id,
                    replies: reply_count(b) as usize,
                    unread: !(b.activity is Idle),
                },
            )
        } else {
            before
        }
    }
}

/// The threads of a room, by the event that began each.
pub fn thread_summaries(buffers: &Vec<Buffer>, room_id: Option<&str>) -> (map: TextMap<
    ThreadSummary,
>)
    ensures
        map@ == summaries(views(buffers@), opt_str(room_id)),
{
    let ghost all = views(buffers@);
    let mut map: TextMap<ThreadSummary> = TextMap::new();
    let room = match room_id {
        Some(room) => room,
        None => {
            return map;
        },
    };
    let mut i: usize = 0;
    assert(map@ =~= summaries(all.take(0), opt_str(room_id)));
    while i < buffers.len()
        invariant
            i <= buffers@.len(),
            all == views(buffers@),
            opt_str(room_id) == Some(room@),
            map@ == summaries(all.take(i as int), opt_str(room_id)),
        decreases buffers@.len() - i,
    {
        let b = &buffers[i];
        proof {
            assert(all[i as int] == b@);
            assert(all.take(i + 1).drop_last() =~= all.take(i as int));
        }
        let in_room = match &b.matrix_room_id {
            Some(id) => same_text(id.as_str(), room),
            None => false,
        };
        if b.is_matrix_thread() && in_room {
            match &b.matrix_thread_root {
                Some(root) => {
                    let blocks = group_thread_lines(&b.messages);
                    assert(views(blocks@).len() == blocks@.len());
                    let n: usize = blocks.len();
                    map.insert(
                        root.clone(),
                        ThreadSummary {
                            buffer_id: b.id.clone(),
                            replies: if n > 0 {
                                n - 1
                            } else {
                                0
                            },
                            unread: b.activity != BufferActivity::Idle,
                        },
                    );
                },
                None => {},
            }
        }
        i = i + 1;
    }
    assert(all.take(i as int) =~= all);
    map
}

pub open spec fn thread_label(replies: usize) -> Seq<char> {
    if replies == 0 {
        "💬 Open thread"@
    } else if replies == 1 {
        "💬 1 reply"@
    } else {
        "💬 "@ + decimal(replies as nat) + " replies"@
    }
}

/// What stands on the button of a thread.
pub fn thread_button_label(replies: usize) -> (label: String)
    ensures
        label@ == thread_label(replies),
{
    if replies == 0 {
        "💬 Open thread".to_owned()
    } else if replies == 1 {
        "💬 1 reply".to_owned()
    } else {
        let n = usize_text(replies);
        join3("💬 ", n.as_str(), " replies")
    }
}

fn last_line_of(messages: &VecDeque<Line>, event_id: &str) -> (at: Option<usize>)
    ensures
        match at {
            Some(i) => i < messages@.len() && last_index(
                views(messages@),
                |l: LineView| l.matrix_event_id == Some(event_id@),
            ) == Some(i as int),
            None => last_index(
                views(messages@),
                |l: LineView| l.matrix_event_id == Some(event_id@),
            ) is None,
        },
{
    let ghost all = views(messages@);
    let ghost p = |l: LineView| l.matrix_event_id == Some(event_id@);
    let mut i: usize = messages.len();
    while i > 0
        invariant
            i <= messages@.len(),
            all == views(messages@),
            p == (|l: LineView| l.matrix_event_id == Some(event_id@)),
            forall|j: int| i <= j < all.len() ==> !p(#[trigger] all[j]),
        decreases i,
    {
        i = i - 1;
        assert(all[i as int] == messages@[i as int]@);
        if crate::text::opt_is(&messages[i].matrix_event_id, event_id) {
            proof {
                lemma_last_is(all, p, i as int);
            }
            return Some(i);
        }
    }
    proof {
        lemma_last_index(all, p);
    }
    None
}

/// The lines that bear the button of a thread, by their ids.
pub open spec fn button_lines(messages: Seq<LineView>, events: Set<Seq<char>>) -> Set<Seq<char>> {
    Set::new(
        |id: Seq<char>|
            exists|e: Seq<char>| #[trigger] events.contains(e) && bears_button(messages, e, id),
    )
}

pub open spec fn bears_button(messages: Seq<LineView>, event: Seq<char>, id: Seq<char>) -> bool {
    match last_index(messages, |l: LineView| l.matrix_event_id == Some(event)) {
        Some(i) => messages[i].id == id,
        None => false,
    }
}

/// The lines that bear the button of a thread, by their ids: the last line of
/// each event that began one.
pub fn thread_button_lines(messages: &VecDeque<Line>, threads: &TextMap<ThreadSummary>) -> (ids:
    TextSet)
    ensures
        ids@ == button_lines(views(messages@), threads@.dom()),
{
    let events = threads.keys();
    let mut ids = TextSet::new();
    let mut i: usize = 0;
    while i < events.len()
        invariant
            i <= events@.len(),
            forall|id: Seq<char>| #[trigger]
                ids@.contains(id) <==> exists|k: int|
                    0 <= k < i && bears_button(
                        views(messages@),
                        (#[trigger] events@[k])@,
                        id,
                    ),
        decreases events@.len() - i,
    {
        let ghost before = ids@;
        match last_line_of(messages, events[i].as_str()) {
            Some(at) => {
                assert(views(messages@)[at as int] == messages@[at as int]@);
                ids.insert(messages[at].id.clone());
            },
            None => {},
        }
        assert forall|id: Seq<char>| #[trigger] ids@.contains(id) implies exists|k: int|
            0 <= k < i + 1 && bears_button(views(messages@), (#[trigger] events@[k])@, id) by {
            if before.contains(id) {
                let k = choose|k: int|
                    0 <= k < i && bears_button(views(messages@), (#[trigger] events@[k])@, id);
                assert(bears_button(views(messages@), events@[k]@, id));
            } else {
                assert(bears_button(views(messages@), events@[i as int]@, id));
            }
        }
        i = i + 1;
    }
    proof {
        let want = button_lines(views(messages@), threads@.dom());
        assert forall|id: Seq<char>| ids@.contains(id) <==> want.contains(id) by {
            if ids@.contains(id) {
                let k = choose|k: int|
                    0 <= k < events@.len() && bears_button(
                        views(messages@),
                        (#[trigger] events@[k])@,
                        id,
                    );
                assert(texts(events@)[k] == events@[k]@);
                assert(texts(events@).to_set().contains(events@[k]@));
                assert(threads@.dom().contains(events@[k]@));
            }
            if want.contains(id) {
                let e = choose|e: Seq<char>| #[trigger]
                    threads@.dom().contains(e) && bears_button(views(messages@), e, id);
                assert(texts(events@).to_set().contains(e));
                let k = choose|k: int| 0 <= k < texts(events@).len() && texts(events@)[k] == e;
                assert(events@[k]@ == e);
            }
        }
        assert(ids@ =~= want);
    }
    ids
}

/// The thread whose button a line bears.
pub open spec fn thread_on(
    line: LineView,
    buttons: Set<Seq<char>>,
    threads: Map<Seq<char>, SummaryView>,
) -> Option<SummaryView> {
    if buttons.contains(line.id) && line.matrix_event_id is Some && threads.contains_key(
        line.matrix_event_id->0,
    ) {
        Some(threads[line.matrix_event_id->0])
    } else {
        None
    }
}

/// The thread whose button a line bears.
pub fn thread_on_line<'a>(
    line: &Line,
    buttons: &TextSet,
    threads: &'a TextMap<ThreadSummary>,
) -> (thread: Option<&'a ThreadSummary>)
    ensures
        match thread {
            Some(t) => thread_on(line@, buttons@, threads@) == Some(t@),
            None => thread_on(line@, buttons@, threads@) is None,
        },
{
    if !buttons.contains(line.id.as_str()) {
        return None;
    }
    match &line.matrix_event_id {
        Some(event_id) => threads.get(event_id.as_str()),
        None => None,
    }
}

} // verus!
