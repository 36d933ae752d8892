//! Lines as the relay sends them, and how a buffer takes them in.
use vstd::prelude::*;
use std::collections::VecDeque;
use crate::dates::{json_date, parse_date, resolve_date, resolved_date, LineDate};
use crate::json::{
    get, get_bool_or, get_id, get_text_or, json_object, member, member_bool_or, member_id,
    member_text_or, Json, JsonMember,
};
use crate::models::{new_line, Line, LineView, WeeChatResponse};
use crate::order::{chronological, is_chronological, line_at_or_before, sort_lines_chronologically};
use crate::rooms::newest_part;
use crate::seqs::{first_from, first_index, is_sorted, lemma_first_from, views};
use crate::state::{RelayEntry, WeeChatApp, MAX_STORED_LINES};
use crate::tags::{event_id_behind, media_in, reply_in, tags};
use crate::time::{before, Timestamp};

verus! {

/// The entries of an answer: an array, or one value.
pub open spec fn body_of(resp: WeeChatResponse) -> Seq<Json> {
    match resp.body {
        Some(Json::Array(items)) => items@,
        Some(value) => seq![value],
        None => Seq::empty(),
    }
}

/// How many entries an answer has.
pub fn body_len(resp: &WeeChatResponse) -> (n: usize)
    ensures
        n == body_of(*resp).len(),
{
    match &resp.body {
        Some(Json::Array(items)) => items.len(),
        Some(_) => 1,
        None => 0,
    }
}

/// The object at a place of an answer.
pub fn object_at(resp: &WeeChatResponse, i: usize) -> (obj: Option<&Vec<JsonMember>>)
    requires
        i < body_of(*resp).len(),
    ensures
        match obj {
            Some(members) => body_of(*resp)[i as int] == Json::Object(*members),
            None => json_object(body_of(*resp)[i as int]) is None,
        },
{
    match &resp.body {
        Some(Json::Array(items)) => items[i].as_object(),
        Some(value) => value.as_object(),
        None => None,
    }
}

/// What the date of an entry says.
pub open spec fn sent_date(value: Json) -> LineDate {
    match json_object(value) {
        Some(obj) => json_date(member(obj, "date"@)),
        None => LineDate::Arrival,
    }
}

/// When an entry of an answer happened.
pub open spec fn entry_date(value: Json, entry: RelayEntry) -> Timestamp {
    resolved_date(sent_date(value), entry.local, entry.arrival)
}

pub fn entry_date_of(resp: &WeeChatResponse, i: usize, entry: &RelayEntry) -> (date: Timestamp)
    requires
        i < body_of(*resp).len(),
    ensures
        date == entry_date(body_of(*resp)[i as int], *entry),
{
    let sent = match object_at(resp, i) {
        Some(obj) => parse_date(get(obj, "date")),
        None => LineDate::Arrival,
    };
    resolve_date(sent, entry.local, entry.arrival)
}

/// A line as an entry describes it.
pub open spec fn relay_line(
    obj: Seq<JsonMember>,
    id: Seq<char>,
    date: Timestamp,
    displayed: bool,
    highlight: bool,
) -> LineView {
    LineView {
        matrix_event_id: event_id_behind(tags(obj), "matrix_id_"@),
        matrix_reply: reply_in(tags(obj)),
        matrix_media: media_in(tags(obj)),
        ..new_line(
            id,
            date,
            member_text_or(obj, "prefix"@, Seq::empty()),
            member_text_or(obj, "message"@, Seq::empty()),
            displayed,
            highlight,
        )
    }
}

pub fn line_from(
    obj: &Vec<JsonMember>,
    id: String,
    date: Timestamp,
    displayed: bool,
    highlight: bool,
) -> (line: Line)
    ensures
        line@ == relay_line(obj@, id@, date, displayed, highlight),
{
    proof {
        reveal_strlit("");
        assert(""@ =~= Seq::<char>::empty());
    }
    let prefix = get_text_or(obj, "prefix", "");
    let message = get_text_or(obj, "message", "");
    let mut line = Line::new(id, date, prefix, message, displayed, highlight);
    line.matrix_event_id = WeeChatApp::tag_value(obj, "matrix_id_");
    line.matrix_reply = WeeChatApp::matrix_reply_from_tags(obj);
    line.matrix_media = WeeChatApp::matrix_media_from_tags(obj);
    line
}

// ---------------------------------------------------------------------------
// Snapshots
// ---------------------------------------------------------------------------

/// The line of an entry of a snapshot. The line that ends a page of history is
/// none.
pub open spec fn snapshot_line(value: Json, date: Timestamp) -> Option<LineView> {
    match json_object(value) {
        Some(obj) => if tags(obj).contains("matrix_history_page"@) {
            None
        } else {
            Some(
                relay_line(
                    obj,
                    match member_id(obj, "id"@) {
                        Some(id) => id,
                        None => "unknown"@,
                    },
                    date,
                    member_bool_or(obj, "displayed"@, true),
                    member_bool_or(obj, "highlight"@, false),
                ),
            )
        },
        None => None,
    }
}

/// The lines of the first `n` entries of a snapshot.
pub open spec fn snapshot_lines(body: Seq<Json>, entries: Seq<RelayEntry>, n: nat) -> Seq<LineView>
    decreases n,
{
    if n == 0 || n > body.len() || n > entries.len() {
        Seq::empty()
    } else {
        let before = snapshot_lines(body, entries, (n - 1) as nat);
        match snapshot_line(body[n - 1], entry_date(body[n - 1], entries[n - 1])) {
            Some(line) => before.push(line),
            None => before,
        }
    }
}

/// The lines that a buffer keeps of a snapshot: in the order of time, the
/// newest ones where there are too many.
pub open spec fn snapshot_of(body: Seq<Json>, entries: Seq<RelayEntry>) -> Seq<LineView> {
    newest_part(chronological(snapshot_lines(body, entries, body.len())))
}

pub fn lines_from_snapshot(resp: &WeeChatResponse, entries: &Vec<RelayEntry>) -> (lines: VecDeque<
    Line,
>)
    requires
        entries@.len() == body_of(*resp).len(),
    ensures
        views(lines@) == snapshot_of(body_of(*resp), entries@),
        lines@.len() <= MAX_STORED_LINES,
{
    let ghost body = body_of(*resp);
    let n: usize = body_len(resp);
    let mut list: Vec<Line> = Vec::new();
    let mut i: usize = 0;
    assert(views(list@) =~= snapshot_lines(body, entries@, 0));
    while i < n
        invariant
            i <= n,
            n == body.len(),
            body == body_of(*resp),
            entries@.len() == body.len(),
            views(list@) == snapshot_lines(body, entries@, i as nat),
        decreases n - i,
    {
        let ghost before = list@;
        match object_at(resp, i) {
            Some(obj) => {
                if !WeeChatApp::has_tag(obj, "matrix_history_page") {
                    let displayed = get_bool_or(obj, "displayed", true);
                    let highlight = get_bool_or(obj, "highlight", false);
                    let id = match get_id(obj, "id") {
                        Some(id) => id,
                        None => "unknown".to_owned(),
                    };
                    let date = entry_date_of(resp, i, &entries[i]);
                    let line = line_from(obj, id, date, displayed, highlight);
                    list.push(line);
                    assert(views(list@) =~= views(before).push(line@));
                }
            },
            None => {},
        }
        i = i + 1;
    }
    sort_lines_chronologically(&mut list);
    let ghost sorted = views(list@);
    let total: usize = list.len();
    let skipped: usize = if total > MAX_STORED_LINES {
        total - MAX_STORED_LINES
    } else {
        0
    };
    let kept = list.split_off(skipped);
    let ghost kept_all = kept@;
    let mut lines: VecDeque<Line> = VecDeque::new();
    assert(views(lines@) =~= views(kept_all).take(0));
    for line in it: kept
        invariant
            it.seq() == kept_all,
            views(lines@) == views(kept_all).take(it.index@ as int),
            lines@.len() == it.index@,
    {
        let ghost before = lines@;
        let ghost k = it.index@ as int;
        lines.push_back(line);
        assert(views(lines@) =~= views(before).push(views(kept_all)[k]));
        assert(views(kept_all).take(k + 1) =~= views(kept_all).take(k).push(views(kept_all)[k]));
    }
    assert(views(kept_all).take(kept_all.len() as int) =~= views(kept_all));
    assert(views(kept_all) =~= newest_part(sorted));
    lines
}

/// A snapshot is in the order of time and no longer than a buffer may be.
pub proof fn snapshot_is_chronological(body: Seq<Json>, entries: Seq<RelayEntry>)
    ensures
        is_chronological(snapshot_of(body, entries)),
        snapshot_of(body, entries).len() <= MAX_STORED_LINES,
{
    let lines = snapshot_lines(body, entries, body.len());
    crate::order::chronological_order_is_stable(lines);
    let sorted = chronological(lines);
    let part = newest_part(sorted);
    let le = |a: LineView, b: LineView| line_at_or_before(a, b);
    let skipped = if sorted.len() > MAX_STORED_LINES {
        sorted.len() - MAX_STORED_LINES
    } else {
        0
    };
    assert(part =~= sorted.skip(skipped));
    assert forall|i: int, j: int| 0 <= i < j < part.len() implies le(
        #[trigger] part[i],
        #[trigger] part[j],
    ) by {
        assert(le(sorted[skipped + i], sorted[skipped + j]));
    }
}

// ---------------------------------------------------------------------------
// New lines
// ---------------------------------------------------------------------------

/// Whether a line is older than the last line that is there.
pub open spec fn is_historical(lines: Seq<LineView>, line: LineView) -> bool {
    lines.len() > 0 && before(line.timestamp, lines.last().timestamp)
}

/// The lines with one more at its place in time.
pub open spec fn with_line(lines: Seq<LineView>, line: LineView) -> Seq<LineView> {
    if is_historical(lines, line) {
        match first_index(lines, |l: LineView| before(line.timestamp, l.timestamp)) {
            Some(at) => lines.insert(at, line),
            None => lines.push(line),
        }
    } else {
        lines.push(line)
    }
}

/// The lines without the first where there are too many.
pub open spec fn without_oldest(lines: Seq<LineView>) -> Seq<LineView> {
    if lines.len() > MAX_STORED_LINES {
        lines.skip(1)
    } else {
        lines
    }
}

pub fn push_bounded(lines: &mut VecDeque<Line>, line: Line)
    ensures
        views(final(lines)@) == without_oldest(views(old(lines)@).push(line@)),
{
    let ghost before = lines@;
    lines.push_back(line);
    let ghost longer = lines@;
    assert(views(longer) =~= views(before).push(line@));
    if lines.len() > MAX_STORED_LINES {
        lines.pop_front();
        assert(views(lines@) =~= views(longer).skip(1));
    }
}

/// Puts a line at its place in time and drops the first where there are too
/// many. The answer says whether the line was older than the last one.
pub fn insert_by_time(lines: &mut VecDeque<Line>, line: Line) -> (historical: bool)
    ensures
        historical == is_historical(views(old(lines)@), line@),
        views(final(lines)@) == without_oldest(with_line(views(old(lines)@), line@)),
{
    let ghost start = views(lines@);
    let n: usize = lines.len();
    assert(n > 0 ==> start.last() == lines@.last()@);
    let historical = n > 0 && line.timestamp.before(lines[n - 1].timestamp);
    if !historical {
        push_bounded(lines, line);
        return false;
    }
    let ghost p = |l: LineView| before(line@.timestamp, l.timestamp);
    let mut at: usize = 0;
    while at < n && !line.timestamp.before(lines[at].timestamp)
        invariant
            at <= n,
            n == lines@.len(),
            start == views(lines@),
            p == (|l: LineView| before(line@.timestamp, l.timestamp)),
            first_index(start, p) == first_from(start, p, at as int),
        decreases n - at,
    {
        assert(start[at as int] == lines@[at as int]@);
        at = at + 1;
    }
    let ghost list = lines@;
    if at < n {
        assert(start[at as int] == lines@[at as int]@);
        lines.insert(at, line);
        assert(views(lines@) =~= start.insert(at as int, line@));
    } else {
        lines.push_back(line);
        assert(views(lines@) =~= start.push(line@));
    }
    let ghost longer = lines@;
    if lines.len() > MAX_STORED_LINES {
        lines.pop_front();
        assert(views(lines@) =~= views(longer).skip(1));
    }
    true
}

/// A line taken in at its place in time leaves the lines in the order of time,
/// and no buffer grows beyond its limit.
pub proof fn new_line_keeps_the_order(lines: Seq<LineView>, line: LineView)
    requires
        is_chronological(lines),
        lines.len() <= MAX_STORED_LINES,
    ensures
        is_chronological(without_oldest(with_line(lines, line))),
        without_oldest(with_line(lines, line)).len() <= MAX_STORED_LINES,
{
    let le = |a: LineView, b: LineView| line_at_or_before(a, b);
    let p = |l: LineView| before(line.timestamp, l.timestamp);
    let all = with_line(lines, line);
    lemma_first_from(lines, p, 0);
    assert(is_sorted(all, le)) by {
        assert forall|i: int, j: int| 0 <= i < j < all.len() implies le(
            #[trigger] all[i],
            #[trigger] all[j],
        ) by {
            let at = if is_historical(lines, line) {
                match first_index(lines, p) {
                    Some(at) => at,
                    None => lines.len() as int,
                }
            } else {
                lines.len() as int
            };
            if i < at && j < at {
                assert(le(lines[i], lines[j]));
            } else if i < at && j == at {
                if is_historical(lines, line) {
                    assert(!p(lines[i]));
                } else {
                    let last = lines.len() - 1;
                    if i < last {
                        assert(le(lines[i], lines[last]));
                    }
                }
            } else if i < at {
                assert(le(lines[i], lines[j - 1]));
            } else if i == at {
                assert(p(lines[at]));
                if at < j - 1 {
                    assert(le(lines[at], lines[j - 1]));
                }
            } else {
                assert(le(lines[i - 1], lines[j - 1]));
            }
        }
    }
    let out = without_oldest(all);
    assert forall|i: int, j: int| 0 <= i < j < out.len() implies le(
        #[trigger] out[i],
        #[trigger] out[j],
    ) by {
        if all.len() > MAX_STORED_LINES {
            assert(le(all[i + 1], all[j + 1]));
        } else {
            assert(le(all[i], all[j]));
        }
    }
}

/// No two lines have the same id.
pub open spec fn distinct_lines(lines: Seq<LineView>) -> bool {
    forall|i: int, j: int|
        0 <= i < j < lines.len() ==> (#[trigger] lines[i]).id != (#[trigger] lines[j]).id
}

/// A line that is not there yet leaves the ids of the lines distinct.
pub proof fn new_line_keeps_ids_distinct(lines: Seq<LineView>, line: LineView)
    requires
        distinct_lines(lines),
        !line_is_known(lines, line.id),
    ensures
        distinct_lines(without_oldest(with_line(lines, line))),
{
    let p = |l: LineView| before(line.timestamp, l.timestamp);
    let known = |l: LineView| l.id == line.id;
    lemma_first_from(lines, p, 0);
    lemma_first_from(lines, known, 0);
    let all = with_line(lines, line);
    let at = if is_historical(lines, line) {
        match first_index(lines, p) {
            Some(at) => at,
            None => lines.len() as int,
        }
    } else {
        lines.len() as int
    };
    assert forall|i: int, j: int| 0 <= i < j < all.len() implies (#[trigger] all[i]).id != (
    #[trigger] all[j]).id by {
        if j < at {
            assert(lines[i].id != lines[j].id);
        } else if j == at {
            assert(!known(lines[i]));
        } else if i < at {
            assert(lines[i].id != lines[j - 1].id);
        } else if i == at {
            assert(!known(lines[j - 1]));
        } else {
            assert(lines[i - 1].id != lines[j - 1].id);
        }
    }
    let out = without_oldest(all);
    assert forall|i: int, j: int| 0 <= i < j < out.len() implies (#[trigger] out[i]).id != (
    #[trigger] out[j]).id by {
        if all.len() > MAX_STORED_LINES {
            assert(all[i + 1].id != all[j + 1].id);
        } else {
            assert(all[i].id != all[j].id);
        }
    }
}

// ---------------------------------------------------------------------------
// Older pages
// ---------------------------------------------------------------------------

pub open spec fn line_is_known(lines: Seq<LineView>, id: Seq<char>) -> bool {
    first_index(lines, |l: LineView| l.id == id) is Some
}

/// The lines of a page that are not there yet.
pub open spec fn unknown_lines(known: Seq<LineView>, page: Seq<LineView>) -> Seq<LineView> {
    page.filter(|l: LineView| !line_is_known(known, l.id))
}

/// The beginning of a list, at most as long as a buffer may be.
pub open spec fn oldest_part(lines: Seq<LineView>) -> Seq<LineView> {
    if lines.len() > MAX_STORED_LINES {
        lines.take(MAX_STORED_LINES as int)
    } else {
        lines
    }
}

/// Puts the new lines of a page before those that are there. The answer says
/// how many there were.
pub fn prepend_page(lines: &mut VecDeque<Line>, page: Vec<Line>) -> (added: usize)
    ensures
        added == unknown_lines(views(old(lines)@), views(page@)).len(),
        views(final(lines)@) == oldest_part(
            unknown_lines(views(old(lines)@), views(page@)) + views(old(lines)@),
        ),
{
    let ghost known = views(lines@);
    let ghost fresh = unknown_lines(known, views(page@));
    let list = &*lines;
    let keep = |l: &Line| -> (r: bool)
        ensures
            r == !line_is_known(views(list@), l@.id),
        { crate::markers::line_position(list, l.id.as_str()).is_none() };
    let mut unique = crate::seqs::keep_items(
        page,
        keep,
        Ghost(|l: LineView| !line_is_known(known, l.id)),
    );
    let added: usize = unique.len();
    assert(views(unique@).len() == added);
    let ghost unique_all = unique@;
    let ghost start = lines@;
    let mut k: usize = added;
    assert(views(unique_all).skip(k as int) + known =~= known);
    while k > 0
        invariant
            k <= added,
            added == unique_all.len(),
            unique@ == unique_all.take(k as int),
            views(unique_all) == fresh,
            views(lines@) == fresh.skip(k as int) + known,
        decreases k,
    {
        let ghost before = lines@;
        let item = unique.pop();
        match item {
            Some(line) => {
                assert(line@ == fresh[k - 1]);
                lines.push_front(line);
                assert(views(lines@) =~= seq![fresh[k - 1]] + views(before));
                assert(fresh.skip(k - 1) =~= seq![fresh[k - 1]] + fresh.skip(k as int));
                assert(views(lines@) =~= fresh.skip(k - 1) + known);
            },
            None => {
                assert(false);
            },
        }
        k = k - 1;
    }
    let ghost whole = fresh + known;
    assert(fresh.skip(0) =~= fresh);
    let ghost longer = lines@;
    assert(views(longer) == whole);
    if lines.len() > MAX_STORED_LINES {
        lines.truncate(MAX_STORED_LINES);
        assert(views(lines@) =~= whole.take(MAX_STORED_LINES as int));
    }
    added
}

/// Puts a page behind the lines that are there.
pub fn append_page(lines: &mut VecDeque<Line>, page: Vec<Line>)
    ensures
        views(final(lines)@) == newest_part(views(old(lines)@) + views(page@)),
{
    let ghost start = views(lines@);
    let ghost all = page@;
    assert(views(lines@) =~= start + views(all).take(0));
    for line in it: page
        invariant
            it.seq() == all,
            views(lines@) == start + views(all).take(it.index@ as int),
    {
        let ghost before = lines@;
        let ghost k = it.index@ as int;
        lines.push_back(line);
        assert(views(lines@) =~= views(before).push(views(all)[k]));
        assert(views(lines@) =~= start + views(all).take(k + 1));
    }
    assert(views(all).take(all.len() as int) =~= views(all));
    let ghost whole = start + views(all);
    let n: usize = lines.len();
    assert(whole.len() == n);
    if n > MAX_STORED_LINES {
        let ghost longer = lines@;
        let mut kept = lines.split_off(n - MAX_STORED_LINES);
        lines.clear();
        lines.append(&mut kept);
        assert(views(lines@) =~= whole.skip(n - MAX_STORED_LINES));
    }
}

} // verus!
