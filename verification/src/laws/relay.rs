//! What a relay says of buffers, nicks and counts.
use vstd::prelude::*;
use crate::dates::{resolved_date, text_date, LineDate};
use crate::events::{route, RouteView};
use crate::json::{member, Json, JsonMember};
use crate::laws::given::{
    affirms, bears, counts, lacks, nothing_is_read_where_nothing_is_said,
    reading_gives_what_is_affirmed, reading_gives_what_is_borne, reading_gives_what_is_counted,
    reading_gives_what_is_said, says,
};
use crate::laws::texts::written_numbers_are_read_back;
use crate::markers::MarkerView;
use crate::models::{BufferActivity, BufferView, LineView, NickView};
use crate::relay_buffers::listed_buffer;
use crate::relay_counts::with_hot_entry;
use crate::relay_details::{nick_changed, nick_joined, nick_left, nicks_by_name};
use crate::relay_lines::changed_line;
use crate::seqs::{first_index, lemma_first_from, lemma_sorted_by_permutation};
use crate::state::RelayEntry;
use crate::tags::{local_text, nick_in};
use crate::text::{
    decimal, lemma_rfind_from, lowercase, occurs_at, rfind_from, starts_with, strip_prefix,
};
use crate::time::Timestamp;

verus! {

// ---------------------------------------------------------------------------
// Buffers
// ---------------------------------------------------------------------------

/// Whether an object says a text under a key of its local variables.
pub open spec fn says_locally(obj: Seq<JsonMember>, key: Seq<char>, text: Seq<char>) -> bool {
    exists|vars: Vec<JsonMember>| #[trigger]
        bears(obj, "local_variables"@, Json::Object(vars)) && says(vars@, key, text)
}

pub proof fn reading_gives_what_is_said_locally(
    obj: Seq<JsonMember>,
    key: Seq<char>,
    text: Seq<char>,
)
    requires
        says_locally(obj, key, text),
    ensures
        local_text(obj, key) == Some(text),
{
    let vars = choose|vars: Vec<JsonMember>| #[trigger]
        bears(obj, "local_variables"@, Json::Object(vars)) && says(vars@, key, text);
    reading_gives_what_is_borne(obj, "local_variables"@, Json::Object(vars));
    reading_gives_what_is_said(vars@, key, text, text);
}

/// A listed buffer has the id, the number, the names and the state that the
/// relay tells of it.
pub proof fn listed_buffers_are_as_told(
    prefix: Seq<char>,
    raw_id: Seq<char>,
    obj: Seq<JsonMember>,
    entry: RelayEntry,
    existing: Option<BufferView>,
    saved: Option<MarkerView>,
    muted: bool,
    text: Seq<char>,
    n: i32,
)
    ensures
        ({
            let b = listed_buffer(prefix, raw_id, obj, entry, existing, saved, muted);
            &&& b.id == prefix + "/"@ + raw_id
            &&& b.muted == muted
            &&& says(obj, "short_name"@, text) ==> b.name == text
            &&& lacks(obj, "short_name"@) && says(obj, "name"@, text) ==> b.name == text
            &&& says(obj, "name"@, text) ==> b.full_name == prefix + "/"@ + text
            &&& counts(obj, "number"@, n as int) ==> b.number == n
            &&& affirms(obj, "hidden"@, true) ==> b.hidden
            &&& affirms(obj, "hidden"@, false) || lacks(obj, "hidden"@) ==> !b.hidden
            &&& affirms(obj, "nicklist"@, false) ==> !b.has_nicklist
            &&& says(obj, "plugin"@, text) ==> b.plugin == text
            &&& says(obj, "last_read_line_id"@, text) ==> b.last_read_id == Some(text)
            &&& says_locally(obj, "nick"@, text) ==> b.own_nick == text
        }),
{
    if says(obj, "short_name"@, text) {
        reading_gives_what_is_said(obj, "short_name"@, text, text);
    }
    if lacks(obj, "short_name"@) {
        nothing_is_read_where_nothing_is_said(obj, "short_name"@);
    }
    if says(obj, "name"@, text) {
        reading_gives_what_is_said(obj, "name"@, text, "unknown"@);
        reading_gives_what_is_said(
            obj,
            "name"@,
            text,
            crate::relay_buffers::listed_name(obj),
        );
    }
    if counts(obj, "number"@, n as int) {
        reading_gives_what_is_counted(obj, "number"@, n as int, 0);
        lemma_signed(obj, "number"@, n as int);
    }
    if affirms(obj, "hidden"@, true) {
        reading_gives_what_is_affirmed(obj, "hidden"@, true, false);
    }
    if affirms(obj, "hidden"@, false) {
        reading_gives_what_is_affirmed(obj, "hidden"@, false, false);
    }
    if lacks(obj, "hidden"@) {
        nothing_is_read_where_nothing_is_said(obj, "hidden"@);
    }
    if affirms(obj, "nicklist"@, false) {
        reading_gives_what_is_affirmed(obj, "nicklist"@, false, true);
    }
    if says(obj, "plugin"@, text) {
        reading_gives_what_is_said(obj, "plugin"@, text, text);
    }
    if says(obj, "last_read_line_id"@, text) {
        reading_gives_what_is_said(obj, "last_read_line_id"@, text, text);
    }
    if says_locally(obj, "nick"@, text) {
        reading_gives_what_is_said_locally(obj, "nick"@, text);
    }
}

proof fn lemma_signed(obj: Seq<JsonMember>, key: Seq<char>, n: int)
    requires
        counts(obj, key, n),
    ensures
        member(obj, key) is Some,
        crate::json::json_signed(member(obj, key)->0) is Some,
        crate::json::json_signed(member(obj, key)->0)->0 == n,
{
    let i = choose|i: int| #[trigger]
        crate::laws::given::first_at(obj, key, i) && obj[i].value is Number && (
        obj[i].value->Number_0).signed is Some && (obj[i].value->Number_0).signed->0 == n;
    crate::laws::given::lookup_finds_the_first(obj, key, i);
}

/// A listed buffer that was there already keeps its lines, its nicks and what
/// it counts.
pub proof fn listed_buffers_keep_what_they_held(
    prefix: Seq<char>,
    raw_id: Seq<char>,
    obj: Seq<JsonMember>,
    entry: RelayEntry,
    b: BufferView,
    saved: Option<MarkerView>,
    muted: bool,
)
    ensures
        ({
            let after = listed_buffer(prefix, raw_id, obj, entry, Some(b), saved, muted);
            let new = listed_buffer(prefix, raw_id, obj, entry, None, saved, muted);
            &&& after.messages == b.messages && after.nicks == b.nicks
            &&& after.activity == b.activity && after.unread_count == b.unread_count
            &&& after.visit_start_marker_id == b.visit_start_marker_id
            &&& new.messages.len() == 0 && new.nicks.len() == 0 && new.unread_count == 0
            &&& new.activity == BufferActivity::Idle
        }),
{
}

/// A buffer that is not the core has the kind, the server, the modes and the
/// topic that its local variables name.
pub proof fn local_variables_describe_the_buffer(
    obj: Seq<JsonMember>,
    topic: Seq<char>,
    modes: Seq<char>,
    full_name: Seq<char>,
    plugin: Seq<char>,
    text: Seq<char>,
)
    requires
        plugin != "core"@,
        full_name != "weechat"@,
        !crate::text::ends_with(full_name, "core.weechat"@),
    ensures
        ({
            let meta = crate::tags::metadata(obj, topic, modes, full_name, plugin);
            &&& says_locally(obj, "type"@, text) && text != "unknown"@ ==> meta.kind == text
            &&& says_locally(obj, "server"@, text) && lowercase(text) != "orphans"@ ==> meta.server
                == lowercase(text)
            &&& says_locally(obj, "modes"@, text) ==> meta.modes == text
            &&& says_locally(obj, "topic"@, text) && text.len() > 0 ==> meta.topic == text
        }),
{
    reveal_strlit("core.weechat");
    reveal_strlit(".core.weechat");
    if full_name == "core.weechat"@ {
        assert(full_name.subrange(0, full_name.len() as int) =~= "core.weechat"@);
    }
    if crate::text::ends_with(full_name, ".core.weechat"@) {
        let n = full_name.len();
        assert(full_name.subrange(n - 12, n as int) =~= full_name.subrange(
            n - 13,
            n as int,
        ).skip(1));
        assert(".core.weechat"@.skip(1) =~= "core.weechat"@);
    }
    if says_locally(obj, "type"@, text) {
        reading_gives_what_is_said_locally(obj, "type"@, text);
    }
    if says_locally(obj, "server"@, text) {
        reading_gives_what_is_said_locally(obj, "server"@, text);
    }
    if says_locally(obj, "modes"@, text) {
        reading_gives_what_is_said_locally(obj, "modes"@, text);
    }
    if says_locally(obj, "topic"@, text) {
        reading_gives_what_is_said_locally(obj, "topic"@, text);
    }
}

/// A Matrix buffer knows its room and the beginning of its thread, where they
/// are names of their kind.
pub proof fn rooms_and_threads_are_known_by_id(obj: Seq<JsonMember>, text: Seq<char>)
    requires
        text.len() > 0,
        !crate::people::has_space(text),
    ensures
        says_locally(obj, "room_id"@, text) && text[0] == '!' ==> crate::tags::room_id_in(obj)
            == Some(text),
        says_locally(obj, "room_id"@, text) && text[0] != '!' ==> crate::tags::room_id_in(obj)
            is None,
        says_locally(obj, "thread_root"@, text) && text[0] == '$' ==> crate::tags::thread_root_in(
            obj,
        ) == Some(text),
        says_locally(obj, "thread_root"@, text) && text[0] != '$' ==> crate::tags::thread_root_in(
            obj,
        ) is None,
{
    reveal_strlit("!");
    reveal_strlit("$");
    assert(text.subrange(0, 1) =~= seq![text[0]]);
    assert("!"@ =~= seq!['!']);
    assert("$"@ =~= seq!['$']);
    assert(text.subrange(0, 1)[0] == text[0]);
    if says_locally(obj, "room_id"@, text) {
        reading_gives_what_is_said_locally(obj, "room_id"@, text);
    }
    if says_locally(obj, "thread_root"@, text) {
        reading_gives_what_is_said_locally(obj, "thread_root"@, text);
    }
}

// ---------------------------------------------------------------------------
// Counts
// ---------------------------------------------------------------------------

/// A count of the relay makes a buffer as urgent as its priority says, and the
/// unread lines are its messages, private messages and highlights, but not its
/// other lines.
pub proof fn counts_of_the_relay_are_taken_over(
    b: BufferView,
    obj: Seq<JsonMember>,
    items: Vec<Json>,
    n: int,
    low: int,
    messages: int,
    private: int,
    highlights: int,
)
    ensures
        counts(obj, "priority"@, 3) ==> with_hot_entry(b, obj).activity
            == BufferActivity::Highlight,
        counts(obj, "priority"@, 2) || counts(obj, "priority"@, 1) ==> with_hot_entry(
            b,
            obj,
        ).activity == BufferActivity::Message,
        counts(obj, "priority"@, 0) || lacks(obj, "priority"@) ==> with_hot_entry(b, obj).activity
            == BufferActivity::Metadata,
        bears(obj, "count"@, Json::Array(items)) && items@.len() == 4 && is_number(items@[0], low)
            && is_number(items@[1], messages) && is_number(items@[2], private) && is_number(
            items@[3],
            highlights,
        ) && 0 <= messages + private + highlights <= u32::MAX ==> with_hot_entry(
            b,
            obj,
        ).unread_count == messages + private + highlights,
        lacks(obj, "count"@) ==> with_hot_entry(b, obj).unread_count == b.unread_count,
        with_hot_entry(b, obj).messages == b.messages,
        with_hot_entry(b, obj).id == b.id,
{
    if counts(obj, "priority"@, 3) {
        reading_gives_what_is_counted(obj, "priority"@, 3, 0);
    }
    if counts(obj, "priority"@, 2) {
        reading_gives_what_is_counted(obj, "priority"@, 2, 0);
    }
    if counts(obj, "priority"@, 1) {
        reading_gives_what_is_counted(obj, "priority"@, 1, 0);
    }
    if counts(obj, "priority"@, 0) {
        reading_gives_what_is_counted(obj, "priority"@, 0, 0);
    }
    if lacks(obj, "priority"@) {
        nothing_is_read_where_nothing_is_said(obj, "priority"@);
    }
    if lacks(obj, "count"@) {
        nothing_is_read_where_nothing_is_said(obj, "count"@);
    }
    if bears(obj, "count"@, Json::Array(items)) {
        reading_gives_what_is_borne(obj, "count"@, Json::Array(items));
        if is_number(items@[1], messages) && is_number(items@[2], private) && is_number(
            items@[3],
            highlights,
        ) && 0 <= messages + private + highlights <= u32::MAX {
            let sum = messages + private + highlights;
            assert(sum % 0x1_0000_0000 == sum) by (nonlinear_arith)
                requires
                    0 <= sum <= 0xffff_ffff,
            ;
        }
    }
}

/// Whether a JSON value is a whole number.
pub open spec fn is_number(value: Json, n: int) -> bool {
    value is Number && (value->Number_0).signed is Some && (value->Number_0).signed->0 == n
}

// ---------------------------------------------------------------------------
// Nicks
// ---------------------------------------------------------------------------

/// A nick has the name and the rank that the relay gives it.
pub proof fn nicks_are_as_told(obj: Seq<JsonMember>, name: Seq<char>, text: Seq<char>)
    requires
        says(obj, "name"@, name),
        name.len() > 0,
    ensures
        nick_in(obj) is Some,
        nick_in(obj)->0.name == name,
        !nick_in(obj)->0.away,
        says(obj, "prefix"@, text) ==> nick_in(obj)->0.prefix == text,
        says(obj, "color"@, text) && text.len() > 0 ==> nick_in(obj)->0.color_ansi == text,
        lacks(obj, "color"@) && says(obj, "color_name"@, text) ==> nick_in(obj)->0.color_ansi
            == text,
{
    reading_gives_what_is_said(obj, "name"@, name, Seq::empty());
    if says(obj, "prefix"@, text) {
        reading_gives_what_is_said(obj, "prefix"@, text, Seq::empty());
    }
    if says(obj, "color"@, text) {
        reading_gives_what_is_said(obj, "color"@, text, Seq::empty());
    }
    if lacks(obj, "color"@) {
        nothing_is_read_where_nothing_is_said(obj, "color"@);
    }
    if says(obj, "color_name"@, text) {
        reading_gives_what_is_said(obj, "color_name"@, text, Seq::empty());
    }
}

/// A nick that came is there, once, among all that were there.
pub proof fn nicks_that_came_are_there(nicks: Seq<NickView>, nick: NickView, i: int)
    ensures
        !has_name(nicks, nick.name) ==> nick_joined(nicks, nick).contains(nick) && nick_joined(
            nicks,
            nick,
        ).len() == nicks.len() + 1,
        has_name(nicks, nick.name) ==> nick_joined(nicks, nick) == nicks,
        0 <= i < nicks.len() ==> nick_joined(nicks, nick).contains(nicks[i]),
{
    broadcast use vstd::seq_lib::group_to_multiset_ensures;

    lemma_first_from(nicks, |n: NickView| n.name == nick.name, 0);
    if !has_name(nicks, nick.name) {
        let all = nicks.push(nick);
        let sorted = nicks_by_name(all);
        lemma_sorted_by_permutation(
            all,
            |a: NickView, b: NickView| crate::relay_details::nick_name_le(a, b),
        );
        assert(all[nicks.len() as int] == nick);
        assert(all.to_multiset().count(nick) > 0);
        assert(sorted.contains(nick));
        if 0 <= i < nicks.len() {
            assert(all[i] == nicks[i]);
            assert(all.to_multiset().count(nicks[i]) > 0);
            assert(sorted.contains(nicks[i]));
        }
    }
}

/// Whether a nick with a name is there.
pub open spec fn has_name(nicks: Seq<NickView>, name: Seq<char>) -> bool {
    exists|i: int| 0 <= i < nicks.len() && (#[trigger] nicks[i]).name == name
}

/// A nick that left is gone, and no other.
pub proof fn nicks_that_left_are_gone(nicks: Seq<NickView>, name: Seq<char>, i: int)
    ensures
        !has_name(nick_left(nicks, name), name),
        0 <= i < nicks.len() && nicks[i].name != name ==> nick_left(nicks, name).contains(nicks[i]),
{
    let p = |n: NickView| n.name != name;
    let left = nicks.filter(p);
    assert forall|j: int| 0 <= j < left.len() implies (#[trigger] left[j]).name != name by {
        nicks.lemma_filter_pred(p, j);
    }
    if 0 <= i < nicks.len() && nicks[i].name != name {
        nicks.lemma_filter_contains(p, i);
    }
}

/// A nick that changed is as it changed, at its place.
pub proof fn nicks_that_changed_are_as_told(nicks: Seq<NickView>, nick: NickView, i: int)
    requires
        0 <= i < nicks.len(),
        nicks[i].name == nick.name,
        forall|j: int| 0 <= j < i ==> (#[trigger] nicks[j]).name != nick.name,
    ensures
        nick_changed(nicks, nick).len() == nicks.len(),
        nick_changed(nicks, nick)[i] == nick,
        forall|j: int|
            0 <= j < nicks.len() && j != i ==> (#[trigger] nick_changed(nicks, nick)[j])
                == nicks[j],
{
    let p = |n: NickView| n.name == nick.name;
    lemma_first_from(nicks, p, 0);
    assert(p(nicks[i]));
    let k = first_index(nicks, p)->0;
    if k < i {
        assert(nicks[k].name != nick.name);
    }
}

// ---------------------------------------------------------------------------
// Changed lines
// ---------------------------------------------------------------------------

/// A line that changed is shown or hidden as the relay says; its words, its
/// sender and its time stay.
pub proof fn changed_lines_keep_their_words(line: LineView, obj: Seq<JsonMember>)
    ensures
        ({
            let after = changed_line(line, obj);
            &&& after.id == line.id && after.prefix == line.prefix && after.message == line.message
            &&& after.timestamp == line.timestamp && after.highlight == line.highlight
            &&& after.plain_message == line.plain_message
            &&& affirms(obj, "displayed"@, false) ==> !after.displayed
            &&& affirms(obj, "displayed"@, true) || lacks(obj, "displayed"@) ==> after.displayed
        }),
{
    if affirms(obj, "displayed"@, false) {
        reading_gives_what_is_affirmed(obj, "displayed"@, false, true);
    }
    if affirms(obj, "displayed"@, true) {
        reading_gives_what_is_affirmed(obj, "displayed"@, true, true);
    }
    if lacks(obj, "displayed"@) {
        nothing_is_read_where_nothing_is_said(obj, "displayed"@);
    }
}

// ---------------------------------------------------------------------------
// Dates
// ---------------------------------------------------------------------------

/// A date that names a point in time is that point; seconds are counted from
/// 1970; a time on the local clock is what that clock makes of it; and what
/// cannot be read is the time of arrival.
pub proof fn dates_are_what_they_say(
    n: nat,
    text: Seq<char>,
    time: Timestamp,
    local: Option<Timestamp>,
    now: Timestamp,
)
    ensures
        crate::dates::rfc3339_time(text) == Some(time) ==> resolved_date(
            text_date(text),
            local,
            now,
        ) == time,
        n <= 8_210_266_876_799 && crate::dates::rfc3339_time(decimal(n)) is None ==> resolved_date(
            text_date(decimal(n)),
            local,
            now,
        ) == (Timestamp { secs: n as i64, nanos: 0 }),
        resolved_date(LineDate::LocalClock(time), Some(now), time) == now,
        resolved_date(LineDate::LocalClock(time), None, now) == now,
        resolved_date(LineDate::Arrival, local, now) == now,
{
    written_numbers_are_read_back(n);
    assert(decimal(n)[0] != '-') by {
        assert(crate::text::is_digit(decimal(n)[0]));
    }
}

// ---------------------------------------------------------------------------
// Answers
// ---------------------------------------------------------------------------

proof fn lemma_strip(head: Seq<char>, rest: Seq<char>)
    ensures
        starts_with(head + rest, head),
        strip_prefix(head + rest, head) == Some(rest),
{
    assert((head + rest).subrange(0, head.len() as int) =~= head);
    assert((head + rest).skip(head.len() as int) =~= rest);
}

proof fn lemma_other(text: Seq<char>, head: Seq<char>, k: int)
    requires
        0 <= k < head.len(),
        k < text.len(),
        text[k] != head[k],
    ensures
        !starts_with(text, head),
        strip_prefix(text, head) is None,
{
    if starts_with(text, head) {
        assert(text.subrange(0, head.len() as int)[k] == text[k]);
    }
}

/// Every answer finds its way by the name of its request: a list of buffers,
/// the counts, the lines of a buffer up to a number, its nicks and its details.
pub proof fn answers_find_their_way(id: Seq<char>, n: nat)
    requires
        n <= usize::MAX,
        n <= u64::MAX,
    ensures
        route("_list_buffers"@) == RouteView::List,
        route("_hotlist"@) == RouteView::Hotlist,
        route("_nicks:"@ + id) == RouteView::Nicks(id),
        route("_buffer_info:"@ + id) == RouteView::Info(id),
        route("_buffer_lines:"@ + (id + ":"@ + decimal(n))) == RouteView::Lines(
            id,
            Some(n as usize),
        ),
        route("_completion:"@ + decimal(n)) == RouteView::Completion(n as u64),
{
    reveal_strlit("_list_buffers");
    reveal_strlit("_hotlist");
    reveal_strlit("_nicks:");
    reveal_strlit("_buffer_info:");
    reveal_strlit("_buffer_lines:");
    reveal_strlit("_completion:");
    lemma_other("_list_buffers"@, "_completion:"@, 1);
    lemma_other("_hotlist"@, "_completion:"@, 1);
    let nicks = "_nicks:"@ + id;
    lemma_strip("_nicks:"@, id);
    lemma_other(nicks, "_completion:"@, 1);
    lemma_other(nicks, "_buffer_lines:"@, 1);
    assert(nicks[1] != "_list_buffers"@[1]);
    assert(nicks[1] != "_hotlist"@[1]);
    let info = "_buffer_info:"@ + id;
    lemma_strip("_buffer_info:"@, id);
    lemma_other(info, "_completion:"@, 1);
    lemma_other(info, "_buffer_lines:"@, 8);
    lemma_other(info, "_nicks:"@, 1);
    assert(info[1] != "_list_buffers"@[1]);
    assert(info[1] != "_hotlist"@[1]);
    let request = id + ":"@ + decimal(n);
    let lines = "_buffer_lines:"@ + request;
    lemma_strip("_buffer_lines:"@, request);
    lemma_other(lines, "_completion:"@, 1);
    assert(lines[1] != "_list_buffers"@[1]);
    assert(lines[1] != "_hotlist"@[1]);
    lemma_lines_request(id, n);
    lemma_strip("_completion:"@, decimal(n));
    written_numbers_are_read_back(n);
}

proof fn lemma_lines_request(id: Seq<char>, n: nat)
    requires
        n <= usize::MAX,
    ensures
        crate::events::lines_route(id + ":"@ + decimal(n)) == RouteView::Lines(
            id,
            Some(n as usize),
        ),
{
    reveal_strlit(":");
    written_numbers_are_read_back(n);
    let text = id + ":"@ + decimal(n);
    let at = id.len() as int;
    assert(text.subrange(at, at + 1) =~= ":"@);
    lemma_rfind_from(text, ":"@, text.len() - 1);
    let found = rfind_from(text, ":"@, text.len() - 1)->0;
    assert(occurs_at(text, ":"@, at));
    if found > at {
        assert(text.subrange(found, found + 1)[0] == text[found]);
        assert(text[found] == decimal(n)[found - at - 1]);
        assert(crate::text::is_digit(decimal(n)[found - at - 1]));
    }
    assert(text.take(at) =~= id);
    assert(text.skip(at + 1) =~= decimal(n));
}

} // verus!
