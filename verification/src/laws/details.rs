//! Details of lines, buffers and files that the relay tells of.
use vstd::prelude::*;
use crate::json::{Json, JsonMember};
use crate::laws::conversation::tags_give_what_they_carry;
use crate::laws::events::only_changes;
use crate::laws::given::{
    bears, buffers_are_found_by_id, lacks, nothing_is_read_where_nothing_is_said,
    reading_gives_what_is_borne, reading_gives_what_is_said, says, stands_at,
};
use crate::lines::relay_line;
use crate::models::{BufferActivity, BufferView, LineView, ProfileView};
use crate::relay_buffers::listed_read_id;
use crate::relay_counts::{hotlist_report, with_hot_entry};
use crate::relay_lines::{changed_line, entry_buffer};
use crate::rooms::inherited_lines;
use crate::sidebar::row_label;
use crate::state::AppView;
use crate::tags::{base64_text, media_from, media_in, safe_profiles, tags, topic_in};
use crate::text::{contains, decimal, decimal_int, lowercase, starts_with};
use crate::time::Timestamp;
use crate::uploads::{extension_type, file_refusal, prepared};
use crate::urls::url_parts;

verus! {

// ---------------------------------------------------------------------------
// Lines
// ---------------------------------------------------------------------------

/// A line knows the event that its tags name, and so does one that changed.
pub proof fn lines_know_their_event(
    obj: Seq<JsonMember>,
    id: Seq<char>,
    date: Timestamp,
    line: LineView,
    event: Seq<char>,
    i: int,
)
    requires
        0 <= i < tags(obj).len(),
        tags(obj)[i] == "matrix_id_"@ + event,
        forall|j: int| 0 <= j < i ==> !starts_with(#[trigger] tags(obj)[j], "matrix_id_"@),
        event.len() > 0,
        event[0] == '$',
        !crate::people::has_space(event),
    ensures
        relay_line(obj, id, date, true, false).matrix_event_id == Some(event),
        changed_line(line, obj).matrix_event_id == Some(event),
{
    tags_give_what_they_carry(tags(obj), "matrix_id_"@, event, i);
}

/// A line that changed keeps the event that it had where no other is named.
pub proof fn lines_keep_their_event(obj: Seq<JsonMember>, line: LineView)
    requires
        forall|j: int|
            0 <= j < tags(obj).len() ==> !starts_with(#[trigger] tags(obj)[j], "matrix_id_"@),
    ensures
        changed_line(line, obj).matrix_event_id == line.matrix_event_id,
        crate::tags::reply_in(tags(obj)) is None ==> changed_line(line, obj).matrix_reply
            == line.matrix_reply,
        changed_line(line, obj).matrix_media == line.matrix_media,
{
    let name = "matrix_id_"@;
    let q = |t: Seq<char>|
        starts_with(t, name) && crate::tags::is_event_id(t.skip(name.len() as int));
    crate::seqs::lemma_first_from(tags(obj), q, 0);
}

/// A file of a line has the address, the kind and the name that its tags carry,
/// and a line without the tag has none.
pub proof fn files_are_named_by_their_tags(
    list: Seq<Seq<char>>,
    address: Seq<char>,
    kind: Seq<char>,
    name: Seq<char>,
    a: int,
    b: int,
    c: int,
)
    requires
        0 <= a < list.len(),
        list[a] == "matrix_media_uri_"@ + address,
        forall|j: int| 0 <= j < a ==> !starts_with(#[trigger] list[j], "matrix_media_uri_"@),
        0 <= b < list.len(),
        list[b] == "matrix_media_kind_"@ + kind,
        forall|j: int| 0 <= j < b ==> !starts_with(#[trigger] list[j], "matrix_media_kind_"@),
        0 <= c < list.len(),
        list[c] == "matrix_media_name_"@ + name,
        forall|j: int| 0 <= j < c ==> !starts_with(#[trigger] list[j], "matrix_media_name_"@),
    ensures
        list.contains("matrix_media"@) && base64_text(address) is Some ==> media_in(list)
            == media_from(
            base64_text(address)->0,
            url_parts(base64_text(address)->0),
            Some(kind),
            base64_text(name),
        ),
        !list.contains("matrix_media"@) ==> media_in(list) is None,
        base64_text(address) is None ==> media_in(list) is None,
{
    tags_give_what_they_carry(list, "matrix_media_uri_"@, address, a);
    tags_give_what_they_carry(list, "matrix_media_kind_"@, kind, b);
    tags_give_what_they_carry(list, "matrix_media_name_"@, name, c);
}

/// The buffer of an entry is the one that the event names, else the one that the
/// entry names.
pub proof fn entries_belong_to_the_named_buffer(obj: Seq<JsonMember>, n: i64, id: Seq<char>)
    ensures
        entry_buffer(Some(n), obj) == Some(decimal_int(n as int)),
        says(obj, "buffer_id"@, id) ==> entry_buffer(None, obj) == Some(id),
        lacks(obj, "buffer_id"@) ==> entry_buffer(None, obj) is None,
{
    if says(obj, "buffer_id"@, id) {
        reading_gives_what_is_said(obj, "buffer_id"@, id, id);
    }
    if lacks(obj, "buffer_id"@) {
        nothing_is_read_where_nothing_is_said(obj, "buffer_id"@);
    }
}

/// Lines that a room took over keep their words and their time, under an id of
/// their own.
pub proof fn inherited_lines_keep_their_words(b: BufferView, rank: usize, i: int, j: int)
    requires
        0 <= i < b.messages.len(),
        0 <= j < b.messages.len(),
    ensures
        inherited_lines(b, rank).len() == b.messages.len(),
        inherited_lines(b, rank)[i].line.message == b.messages[i].message,
        inherited_lines(b, rank)[i].line.prefix == b.messages[i].prefix,
        inherited_lines(b, rank)[i].line.timestamp == b.messages[i].timestamp,
        inherited_lines(b, rank)[i].inherited,
        inherited_lines(b, rank)[i].rank == rank,
        b.messages[i].id != b.messages[j].id ==> inherited_lines(b, rank)[i].line.id
            != inherited_lines(b, rank)[j].line.id,
{
    let head = "upgrade-history:"@ + b.id + ":"@;
    let x = b.messages[i].id;
    let y = b.messages[j].id;
    assert((head + x).skip(head.len() as int) =~= x);
    assert((head + y).skip(head.len() as int) =~= y);
}

// ---------------------------------------------------------------------------
// Buffers
// ---------------------------------------------------------------------------

/// A buffer is read up to the line that the relay names, by its id or as a line.
pub proof fn read_lines_are_named(
    obj: Seq<JsonMember>,
    id: Seq<char>,
    line: Vec<JsonMember>,
)
    ensures
        says(obj, "last_read_line_id"@, id) ==> listed_read_id(obj) == Some(id),
        lacks(obj, "last_read_line_id"@) && bears(obj, "last_read_line"@, Json::Object(line)) && says(
            line@,
            "id"@,
            id,
        ) ==> listed_read_id(obj) == Some(id),
        lacks(obj, "last_read_line_id"@) && lacks(obj, "last_read_line"@) ==> listed_read_id(obj)
            is None,
{
    if says(obj, "last_read_line_id"@, id) {
        reading_gives_what_is_said(obj, "last_read_line_id"@, id, id);
    }
    if lacks(obj, "last_read_line_id"@) {
        nothing_is_read_where_nothing_is_said(obj, "last_read_line_id"@);
    }
    if bears(obj, "last_read_line"@, Json::Object(line)) {
        reading_gives_what_is_borne(obj, "last_read_line"@, Json::Object(line));
        if says(line@, "id"@, id) {
            reading_gives_what_is_said(line@, "id"@, id, id);
        }
    }
    if lacks(obj, "last_read_line"@) {
        nothing_is_read_where_nothing_is_said(obj, "last_read_line"@);
    }
}

/// Where the local variables tell no topic, the title is the topic.
pub proof fn titles_are_topics(obj: Seq<JsonMember>, title: Seq<char>)
    requires
        lacks(obj, "local_variables"@),
    ensures
        says(obj, "title"@, title) ==> topic_in(obj, Seq::empty()) == title,
        lacks(obj, "title"@) && says(obj, "topic"@, title) ==> topic_in(obj, Seq::empty()) == title,
{
    nothing_is_read_where_nothing_is_said(obj, "local_variables"@);
    if says(obj, "title"@, title) {
        reading_gives_what_is_said(obj, "title"@, title, title);
    }
    if lacks(obj, "title"@) {
        nothing_is_read_where_nothing_is_said(obj, "title"@);
    }
    if says(obj, "topic"@, title) {
        reading_gives_what_is_said(obj, "topic"@, title, title);
    }
}

/// The counts of the relay go to the buffer that the entry names, unless that is
/// on view, muted or read.
pub proof fn counts_go_to_the_named_buffer(
    state: AppView,
    conn: Seq<char>,
    vec: Vec<JsonMember>,
    raw_id: Seq<char>,
    k: int,
)
    requires
        says(vec@, "buffer_id"@, raw_id),
        stands_at(state.buffers, conn + "/"@ + raw_id, k),
    ensures
        ({
            let id = conn + "/"@ + raw_id;
            let b = state.buffers[k];
            let after = state.hot_entry(conn, Json::Object(vec));
            let quiet = state.selected_buffer_id == Some(id) || b.muted
                || state.cleared_buffer_ids.contains(id) || state.cleared_buffer_names.contains(
                b.full_name,
            );
            &&& !quiet ==> only_changes(state, after, k) && after.buffers[k] == with_hot_entry(
                b,
                vec@,
            )
            &&& quiet ==> after == state
        }),
{
    let id = conn + "/"@ + raw_id;
    reading_gives_what_is_said(vec@, "buffer_id"@, raw_id, raw_id);
    buffers_are_found_by_id(state.buffers, id, k);
    let p = |b: BufferView| b.id == id && b.muted;
    crate::seqs::lemma_first_from(state.buffers, p, 0);
    if state.buffers[k].muted {
        assert(p(state.buffers[k]));
    }
}

/// Reports tell how much came.
pub proof fn reports_tell_how_much_came(n: nat, m: nat)
    requires
        n != m,
    ensures
        hotlist_report(1) == "← GET /api/hotlist  "@ + decimal(1) + " active entr"@ + "y"@,
        n != 1 && m != 1 ==> hotlist_report(n) != hotlist_report(m),
{
    crate::laws::texts::different_numbers_look_different(n, m);
    let head = "← GET /api/hotlist  "@;
    let tail = " active entr"@ + "ies"@;
    let x = decimal(n);
    let y = decimal(m);
    assert(head + x + " active entr"@ + "ies"@ =~= head + x + tail);
    assert(head + y + " active entr"@ + "ies"@ =~= head + y + tail);
    if head + x + tail == head + y + tail {
        let left = head + x + tail;
        let right = head + y + tail;
        assert(left.len() == head.len() + x.len() + tail.len());
        assert(right.len() == head.len() + y.len() + tail.len());
        assert(left.subrange(head.len() as int, head.len() + x.len() as int) =~= x);
        assert(right.subrange(head.len() as int, head.len() + y.len() as int) =~= y);
    }
}

/// A room that was replaced says so in its row.
pub proof fn replaced_rooms_say_so(b: BufferView, replaced: Set<Seq<char>>)
    requires
        !b.muted,
        b.activity != BufferActivity::Highlight,
        b.kind != "server"@,
        b.kind != "core"@,
        b.matrix_room_id is Some,
        replaced.contains(b.matrix_room_id->0),
    ensures
        contains(row_label(b, replaced), b.name),
        row_label(b, replaced).len() > b.name.len(),
        row_label(b, replaced) == "↪ "@ + b.name + " (replaced)"@,
{
    let label = "↪ "@ + b.name + " (replaced)"@;
    let n = "↪ "@.len() as int;
    reveal_strlit(" (replaced)");
    assert(label.subrange(n, n + b.name.len() as int) =~= b.name);
    assert(crate::text::occurs_at(label, b.name, n));
    crate::text::lemma_find_from(label, b.name, 0);
}

/// Profiles are taken over where user and picture are named by their kind.
pub proof fn safe_profiles_are_kept(profiles: Seq<ProfileView>, i: int)
    requires
        0 <= i < profiles.len(),
        !crate::people::has_space(profiles[i].user_id),
        profiles[i].user_id.len() > 0,
    ensures
        profiles[i].user_id[0] == '@' && profiles[i].avatar_mxc is None ==> safe_profiles(
            profiles,
        ).contains(profiles[i]),
        profiles[i].user_id[0] != '@' ==> !safe_profiles(profiles).contains(profiles[i]),
        profiles[i].avatar_mxc is Some && !starts_with(profiles[i].avatar_mxc->0, "mxc://"@)
            ==> !safe_profiles(profiles).contains(profiles[i]),
{
    let one = profiles[i];
    let p = |p: ProfileView| crate::tags::is_safe_profile(p);
    let kept = profiles.filter(p);
    reveal_strlit("@");
    assert(one.user_id.subrange(0, 1)[0] == one.user_id[0]);
    if one.user_id[0] == '@' {
        assert(one.user_id.subrange(0, 1) =~= "@"@);
    }
    if p(one) {
        profiles.lemma_filter_contains(p, i);
    } else if kept.contains(one) {
        let k = choose|k: int| 0 <= k < kept.len() && kept[k] == one;
        profiles.lemma_filter_pred(p, k);
    }
}

// ---------------------------------------------------------------------------
// Files
// ---------------------------------------------------------------------------

proof fn lemma_short_endings()
    ensures
        "png"@.len() == 3 && "png"@[0] == 'p' && "png"@[1] == 'n',
        "jpg"@.len() == 3 && "jpg"@[0] == 'j',
        "gif"@.len() == 3 && "gif"@[0] == 'g',
        "svg"@.len() == 3 && "svg"@[0] == 's',
        "mp4"@.len() == 3 && "mp4"@[0] == 'm' && "mp4"@[2] == '4',
        "mp3"@.len() == 3 && "mp3"@[0] == 'm' && "mp3"@[2] == '3',
        "ogg"@.len() == 3 && "ogg"@[0] == 'o',
        "pdf"@.len() == 3 && "pdf"@[0] == 'p' && "pdf"@[1] == 'd',
{
    reveal_strlit("png");
    reveal_strlit("jpg");
    reveal_strlit("gif");
    reveal_strlit("svg");
    reveal_strlit("mp4");
    reveal_strlit("mp3");
    reveal_strlit("ogg");
    reveal_strlit("pdf");
}

proof fn lemma_other_endings()
    ensures
        "zip"@.len() == 3 && "zip"@[0] == 'z',
        "txt"@.len() == 3 && "txt"@[0] == 't',
        "log"@.len() == 3 && "log"@[0] == 'l',
        "md"@.len() == 2,
        "jpeg"@.len() == 4 && "jpeg"@[0] == 'j',
        "webp"@.len() == 4 && "webp"@[0] == 'w' && "webp"@[3] == 'p',
        "webm"@.len() == 4 && "webm"@[0] == 'w' && "webm"@[3] == 'm',
{
    reveal_strlit("zip");
    reveal_strlit("txt");
    reveal_strlit("log");
    reveal_strlit("md");
    reveal_strlit("jpeg");
    reveal_strlit("webp");
    reveal_strlit("webm");
}

/// Each ending that is known stands for its kind of file.
pub proof fn known_endings_stand_for_their_kind(ending: Seq<char>)
    ensures
        ending == "gif"@ ==> extension_type(ending) == "image/gif"@,
        ending == "webp"@ ==> extension_type(ending) == "image/webp"@,
        ending == "svg"@ ==> extension_type(ending) == "image/svg+xml"@,
        ending == "mp4"@ ==> extension_type(ending) == "video/mp4"@,
        ending == "webm"@ ==> extension_type(ending) == "video/webm"@,
        ending == "mp3"@ ==> extension_type(ending) == "audio/mpeg"@,
        ending == "ogg"@ ==> extension_type(ending) == "audio/ogg"@,
        ending == "pdf"@ ==> extension_type(ending) == "application/pdf"@,
        ending == "zip"@ ==> extension_type(ending) == "application/zip"@,
        ending == "txt"@ || ending == "log"@ || ending == "md"@ ==> extension_type(ending)
            == "text/plain"@,
        ending.len() > 4 || ending.len() < 2 ==> extension_type(ending)
            == "application/octet-stream"@,
{
    lemma_short_endings();
    lemma_other_endings();
}

/// A file is refused where it is none, where it is empty and where it is too
/// large.
pub proof fn only_files_of_some_size_are_attached(is_file: bool, len: u64)
    ensures
        file_refusal(is_file, len) is None <==> is_file && 1 <= len <= 10_485_760,
        !is_file ==> file_refusal(is_file, len) == file_refusal(false, 0),
        is_file && (len == 0 || len > 10_485_760) ==> file_refusal(is_file, len) == file_refusal(
            true,
            0,
        ),
        file_refusal(true, 0) != file_refusal(false, 0),
{
    reveal_strlit("Matrix attachment must be a regular file");
    reveal_strlit("Matrix attachments must be between 1 byte and 10 MiB");
    assert("Matrix attachment must be a regular file"@.len() == 40);
    assert("Matrix attachments must be between 1 byte and 10 MiB"@.len() == 52);
}

/// A file that changed while it was read is not attached, nor one without a
/// name.
pub proof fn changed_files_are_not_attached(
    id: Seq<char>,
    name: Seq<char>,
    bytes: Seq<u8>,
    len: u64,
)
    ensures
        bytes.len() != len ==> prepared(id, Some(name), bytes, len) is Err,
        prepared(id, None, bytes, len) is Err,
        name.len() == 0 ==> prepared(id, Some(name), bytes, len) is Err,
        name.len() > 0 && bytes.len() == len ==> prepared(id, Some(name), bytes, len) is Ok,
{
}

/// A refusal is known whatever the case of its words.
pub proof fn refusals_are_known_by_their_words(error: Seq<char>)
    ensures
        contains(lowercase(error), "unauthorized"@) ==> crate::backend::is_auth_failure(error),
        contains(lowercase(error), "forbidden"@) ==> crate::backend::is_auth_failure(error),
        contains(error, "401"@) ==> crate::backend::is_auth_failure(error),
        contains(error, "403"@) ==> crate::backend::is_auth_failure(error),
        crate::backend::is_auth_failure(error) ==> contains(error, "401"@) || contains(
            error,
            "403"@,
        ) || contains(lowercase(error), "unauthorized"@) || contains(
            lowercase(error),
            "forbidden"@,
        ),
{
}

} // verus!
