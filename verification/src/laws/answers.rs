//! What the answers of a relay are taken for, and what comes of uploads.
use vstd::prelude::*;
use vstd::utf8::encode_utf8;
use crate::json::{Json, JsonMember, JsonNumber};
use crate::laws::given::{
    affirms, bears, buffers_are_found_by_id, lacks, nothing_is_read_where_nothing_is_said,
    reading_gives_what_is_affirmed, reading_gives_what_is_borne, reading_gives_what_is_said, says,
    stands_at,
};
use crate::laws::lines::relay_lines_show_sender_and_message;
use crate::laws::pictures::{lemma_one_part, lemma_parts_behind};
use crate::laws::writing::{is_owned, owners_are_found};
use crate::lines::{snapshot_line, snapshot_lines, snapshot_of};
use crate::models::{BufferView, WeeChatResponse};
use crate::order::{chronological, chronological_order_is_stable};
use crate::relay_details::completion_in;
use crate::rooms::{connection_prefix, on_connection, replacement_of, shows_room, successor};
use crate::seqs::{first_index, lemma_first_from};
use crate::state::{ActionView, AppView, CompletionRequestView, RelayEntry};
use crate::tags::{hex_bytes, hex_text, metadata, reply_in, tags};
use crate::text::{lowercase, split_on, starts_with};
use crate::uploads::upload_commands;

verus! {

// ---------------------------------------------------------------------------
// Snapshots
// ---------------------------------------------------------------------------

/// Whether an entry of a snapshot tells of a line.
pub open spec fn tells(
    obj: Seq<JsonMember>,
    id: Seq<char>,
    prefix: Seq<char>,
    message: Seq<char>,
    displayed: bool,
    highlight: bool,
) -> bool {
    &&& says(obj, "id"@, id)
    &&& says(obj, "prefix"@, prefix)
    &&& says(obj, "message"@, message)
    &&& affirms(obj, "displayed"@, displayed) || lacks(obj, "displayed"@) && displayed
    &&& affirms(obj, "highlight"@, highlight) || lacks(obj, "highlight"@) && !highlight
    &&& !tags(obj).contains("matrix_history_page"@)
}

proof fn lemma_told_line(
    vec: Vec<JsonMember>,
    date: crate::time::Timestamp,
    id: Seq<char>,
    prefix: Seq<char>,
    message: Seq<char>,
    displayed: bool,
    highlight: bool,
)
    requires
        tells(vec@, id, prefix, message, displayed, highlight),
    ensures
        ({
            let line = snapshot_line(Json::Object(vec), date);
            &&& line is Some
            &&& line->0.id == id && line->0.timestamp == date
            &&& line->0.prefix == prefix && line->0.message == message
            &&& line->0.displayed == displayed && line->0.highlight == highlight
        }),
{
    let obj = vec@;
    reading_gives_what_is_said(obj, "id"@, id, id);
    if affirms(obj, "displayed"@, displayed) {
        reading_gives_what_is_affirmed(obj, "displayed"@, displayed, true);
    } else {
        nothing_is_read_where_nothing_is_said(obj, "displayed"@);
        assert(crate::json::member_bool_or(obj, "displayed"@, true));
    }
    if affirms(obj, "highlight"@, highlight) {
        reading_gives_what_is_affirmed(obj, "highlight"@, highlight, false);
    } else {
        nothing_is_read_where_nothing_is_said(obj, "highlight"@);
        assert(!crate::json::member_bool_or(obj, "highlight"@, false));
    }
    relay_lines_show_sender_and_message(obj, id, date, displayed, highlight, prefix, message);
}

proof fn lemma_line_kept(body: Seq<Json>, entries: Seq<RelayEntry>, n: nat, m: nat, k: int)
    requires
        n <= m <= body.len(),
        m <= entries.len(),
        0 <= k < snapshot_lines(body, entries, n).len(),
    ensures
        k < snapshot_lines(body, entries, m).len(),
        snapshot_lines(body, entries, m)[k] == snapshot_lines(body, entries, n)[k],
    decreases m - n,
{
    if n < m {
        lemma_line_kept(body, entries, n, (m - 1) as nat, k);
    }
}

proof fn lemma_no_more_lines(body: Seq<Json>, entries: Seq<RelayEntry>, n: nat)
    ensures
        snapshot_lines(body, entries, n).len() <= n,
    decreases n,
{
    if n > 0 && n <= body.len() && n <= entries.len() {
        lemma_no_more_lines(body, entries, (n - 1) as nat);
    }
}

/// Every entry of a snapshot becomes a line, with the id, the sender, the
/// message and the marks that it tells.
pub proof fn told_entries_become_lines(
    body: Seq<Json>,
    entries: Seq<RelayEntry>,
    i: int,
    vec: Vec<JsonMember>,
    id: Seq<char>,
    prefix: Seq<char>,
    message: Seq<char>,
    displayed: bool,
    highlight: bool,
)
    requires
        0 <= i < body.len(),
        body.len() == entries.len(),
        body.len() <= 10_000,
        body[i] == Json::Object(vec),
        tells(vec@, id, prefix, message, displayed, highlight),
    ensures
        exists|k: int|
            0 <= k < snapshot_of(body, entries).len() && (#[trigger] snapshot_of(body, entries)[k]).id
                == id && snapshot_of(body, entries)[k].prefix == prefix && snapshot_of(
                body,
                entries,
            )[k].message == message && snapshot_of(body, entries)[k].displayed == displayed
                && snapshot_of(body, entries)[k].highlight == highlight,
{
    let date = crate::lines::entry_date(body[i], entries[i]);
    lemma_told_line(vec, date, id, prefix, message, displayed, highlight);
    let part = snapshot_lines(body, entries, (i + 1) as nat);
    let at = part.len() - 1;
    let all = snapshot_lines(body, entries, body.len());
    lemma_line_kept(body, entries, (i + 1) as nat, body.len(), at);
    lemma_no_more_lines(body, entries, body.len());
    chronological_order_is_stable(all);
    let out = chronological(all);
    assert(out.contains(all[at])) by {
        broadcast use vstd::seq_lib::group_to_multiset_ensures;

        assert(all.contains(all[at]));
        assert(all.to_multiset().count(all[at]) > 0);
    }
    assert(snapshot_of(body, entries) == out);
    let k = choose|k: int| 0 <= k < out.len() && out[k] == all[at];
    assert(snapshot_of(body, entries)[k].id == id);
}

// ---------------------------------------------------------------------------
// Completions
// ---------------------------------------------------------------------------

/// The proposals for a command are those that the relay lists, for the word and
/// the place that it names, in the text that was asked about.
pub proof fn proposals_are_as_told(
    obj: Seq<JsonMember>,
    request: CompletionRequestView,
    context: Seq<char>,
    word: Seq<char>,
    space: bool,
    place: JsonNumber,
    items: Vec<Json>,
    text: String,
)
    requires
        says(obj, "context"@, context),
        says(obj, "base_word"@, word),
        affirms(obj, "add_space"@, space),
        bears(obj, "position_replace"@, Json::Number(place)),
        place.unsigned is Some,
        place.unsigned->0 <= usize::MAX,
        bears(obj, "list"@, Json::Array(items)),
        items@ == seq![Json::Text(text)],
    ensures
        ({
            let found = completion_in(obj, request);
            &&& found is Some
            &&& found->0.context == context
            &&& found->0.base_word == word
            &&& found->0.add_space == space
            &&& found->0.position_replace == place.unsigned->0
            &&& found->0.matches == seq![text@]
            &&& found->0.index == 0
            &&& found->0.source_text == request.input
            &&& found->0.cursor_byte_idx == request.cursor_byte_idx
        }),
{
    reading_gives_what_is_said(obj, "context"@, context, "null"@);
    reading_gives_what_is_said(obj, "base_word"@, word, Seq::empty());
    reading_gives_what_is_affirmed(obj, "add_space"@, space, false);
    reading_gives_what_is_borne(obj, "position_replace"@, Json::Number(place));
    reading_gives_what_is_borne(obj, "list"@, Json::Array(items));
    let f = |item: Json| crate::json::json_text(item);
    reveal_with_fuel(Seq::filter_map, 3);
    assert(items@.drop_last() =~= Seq::empty());
    assert(items@.last() == Json::Text(text));
    assert(crate::tags::text_items(items@) =~= seq![text@]);
}

/// An answer is taken only for the question that it names, while the text is
/// still the same.
pub proof fn answers_are_taken_for_their_question(
    state: AppView,
    prefix: Seq<char>,
    sequence: u64,
    resp: WeeChatResponse,
    request: CompletionRequestView,
)
    requires
        state.command_completion_pending == Some(request),
    ensures
        request.sequence != sequence ==> state.completion_answered(prefix, sequence, resp) == state,
        request.sequence == sequence ==> state.completion_answered(
            prefix,
            sequence,
            resp,
        ).command_completion_pending is None,
        request.sequence == sequence && state.input_text != request.input
            ==> state.completion_answered(prefix, sequence, resp).command_completion is None,
        request.sequence == sequence && state.selected_buffer_id != Some(request.buffer_id)
            ==> state.completion_answered(prefix, sequence, resp).command_completion is None,
        request.sequence == sequence && resp.code != Some(200i64) ==> state.completion_answered(
            prefix,
            sequence,
            resp,
        ).command_completion is None,
        state.completion_answered(prefix, sequence, resp).input_text == state.input_text,
{
}

// ---------------------------------------------------------------------------
// Names
// ---------------------------------------------------------------------------

/// A channel of which the relay tells nothing else is known by its full name.
pub proof fn channels_are_known_by_their_name(
    obj: Seq<JsonMember>,
    topic: Seq<char>,
    modes: Seq<char>,
    server: Seq<char>,
    channel: Seq<char>,
)
    requires
        lacks(obj, "local_variables"@),
        forall|i: int| 0 <= i < server.len() ==> #[trigger] server[i] != '.',
        forall|i: int| 0 <= i < channel.len() ==> #[trigger] channel[i] != '.',
        server != "server"@,
        channel != "weechat"@,
    ensures
        ({
            let full_name = "irc"@ + seq!['.'] + (server + seq!['.'] + channel);
            let meta = metadata(obj, topic, modes, full_name, "irc"@);
            &&& meta.kind == "channel"@
            &&& meta.server == lowercase(server)
            &&& meta.modes == modes
            &&& topic.len() > 0 ==> meta.topic == topic
        }),
{
    let full_name = "irc"@ + seq!['.'] + (server + seq!['.'] + channel);
    reveal_strlit("irc");
    assert forall|i: int| 0 <= i < "irc"@.len() implies #[trigger] "irc"@[i] != '.' by {}
    lemma_one_part("irc"@, '.');
    lemma_one_part(server, '.');
    lemma_one_part(channel, '.');
    lemma_parts_behind(server, channel, '.');
    lemma_parts_behind("irc"@, server + seq!['.'] + channel, '.');
    let parts = split_on(full_name, '.');
    assert(parts[1] == server);
    assert(parts.len() == 3);
    nothing_is_read_where_nothing_is_said(obj, "local_variables"@);
    lemma_no_core(server, channel);
}

proof fn lemma_no_core(server: Seq<char>, channel: Seq<char>)
    requires
        channel != "weechat"@,
        forall|i: int| 0 <= i < channel.len() ==> #[trigger] channel[i] != '.',
    ensures
        !crate::tags::is_core_buffer("irc"@ + seq!['.'] + (server + seq!['.'] + channel), "irc"@),
{
    let full_name = "irc"@ + seq!['.'] + (server + seq!['.'] + channel);
    let n = full_name.len() as int;
    let m = channel.len() as int;
    reveal_strlit("irc");
    reveal_strlit("core");
    reveal_strlit("weechat");
    reveal_strlit("core.weechat");
    reveal_strlit(".core.weechat");
    assert(full_name[0] == 'i');
    assert(full_name[n - m - 1] == '.');
    assert(full_name.skip(n - m) =~= channel);
    if crate::text::ends_with(full_name, ".core.weechat"@) {
        let tail = full_name.subrange(n - 13, n);
        assert(tail == ".core.weechat"@);
        if m > 7 {
            assert(tail[5] == '.');
            assert(full_name[n - 8] == '.');
            assert(channel[m - 8] == full_name[n - 8]);
        } else if m < 7 {
            assert(full_name[n - m - 1] == tail[12 - m]);
        } else {
            assert(channel =~= "weechat"@) by {
                assert forall|i: int| 0 <= i < 7 implies channel[i] == "weechat"@[i] by {
                    assert(channel[i] == full_name[n - 7 + i]);
                    assert(tail[6 + i] == full_name[n - 7 + i]);
                }
            }
        }
    }
}

/// The digit that stands for a number in base sixteen.
pub open spec fn sixteenth(n: int) -> char {
    if n == 10 {
        'a'
    } else if n == 11 {
        'b'
    } else if n == 12 {
        'c'
    } else if n == 13 {
        'd'
    } else if n == 14 {
        'e'
    } else if n == 15 {
        'f'
    } else {
        (0x30 + n) as u8 as char
    }
}

/// A text whose bytes are written with two digits each is read back.
pub proof fn digits_of_bytes_are_read_back(text: Seq<char>, encoded: Seq<char>)
    requires
        encoded.len() == 2 * encode_utf8(text).len(),
        forall|i: int|
            #![trigger encode_utf8(text)[i]]
            0 <= i < encode_utf8(text).len() ==> encoded[2 * i] == sixteenth(
                encode_utf8(text)[i] as int / 16,
            ) && encoded[2 * i + 1] == sixteenth(encode_utf8(text)[i] as int % 16),
    ensures
        hex_text(encoded) == Some(text),
{
    let bytes = encode_utf8(text);
    let digits = encode_utf8(encoded);
    assert forall|k: int| 0 <= k < encoded.len() implies ({
        let c = #[trigger] encoded[k];
        '0' <= c <= '9' || 'a' <= c <= 'f'
    }) by {
        let i = k / 2;
        assert(bytes[i] as int / 16 < 16 && bytes[i] as int % 16 < 16);
        assert(k == 2 * i || k == 2 * i + 1);
    }
    lemma_plain_bytes(encoded);
    assert forall|k: int| 0 <= k < digits.len() implies crate::tags::is_hex_digit(
        #[trigger] digits[k],
    ) by {
        assert(digits[k] == encoded[k] as u8);
    }
    let read = hex_bytes(digits)->0;
    assert forall|i: int| 0 <= i < bytes.len() implies read[i] == #[trigger] bytes[i] by {
        assert(digits[2 * i] == encoded[2 * i] as u8);
        assert(digits[2 * i + 1] == encoded[2 * i + 1] as u8);
        assert(bytes[i] as int == bytes[i] as int / 16 * 16 + bytes[i] as int % 16);
    }
    assert(read =~= bytes);
    vstd::utf8::encode_utf8_valid_utf8(text);
    vstd::utf8::encode_utf8_decode_utf8(text);
}

proof fn lemma_plain_bytes(text: Seq<char>)
    requires
        forall|i: int|
            0 <= i < text.len() ==> {
                let c = #[trigger] text[i];
                '0' <= c <= '9' || 'a' <= c <= 'f'
            },
    ensures
        encode_utf8(text).len() == text.len(),
        forall|i: int| 0 <= i < text.len() ==> #[trigger] encode_utf8(text)[i] == text[i] as u8,
{
    assert(vstd::utf8::is_ascii_chars(text));
    vstd::utf8::is_ascii_chars_encode_utf8(text);
}

/// An answer names the event and the sender that its tags carry.
pub proof fn answers_name_event_and_sender(
    list: Seq<Seq<char>>,
    event: Seq<char>,
    code: Seq<char>,
    i: int,
    j: int,
)
    requires
        list.contains("matrix_reply_header"@) || list.contains("matrix_reply_quote"@),
        0 <= i < list.len(),
        list[i] == "matrix_reply_id_"@ + event,
        forall|k: int| 0 <= k < i ==> !starts_with(#[trigger] list[k], "matrix_reply_id_"@),
        0 <= j < list.len(),
        list[j] == "matrix_reply_sender_hex_"@ + code,
        forall|k: int| 0 <= k < j ==> !starts_with(#[trigger] list[k], "matrix_reply_sender_hex_"@),
        event.len() > 0,
        event[0] == '$',
        !crate::people::has_space(event),
    ensures
        reply_in(list) is Some,
        reply_in(list)->0.event_id == Some(event),
        reply_in(list)->0.sender == hex_text(code),
{
    crate::laws::conversation::tags_give_what_they_carry(list, "matrix_reply_id_"@, event, i);
    crate::laws::conversation::tags_give_what_they_carry(
        list,
        "matrix_reply_sender_hex_"@,
        code,
        j,
    );
    reveal_strlit("$");
    assert(event.subrange(0, 1) =~= "$"@);
}

// ---------------------------------------------------------------------------
// Replaced rooms
// ---------------------------------------------------------------------------

/// A room that tells what replaced it is followed by that room, on the same
/// connection.
pub proof fn replaced_rooms_are_followed(
    buffers: Seq<BufferView>,
    id: Seq<char>,
    k: int,
    room: Seq<char>,
    j: int,
)
    requires
        stands_at(buffers, id, k),
        buffers[k].matrix_replacement_room_id == Some(room),
        0 <= j < buffers.len(),
        shows_room(buffers[j], room),
        connection_prefix(buffers[j].id) == connection_prefix(id),
        forall|n: int| 0 <= n < j ==> !shows_room(#[trigger] buffers[n], room),
    ensures
        successor(buffers, connection_prefix(id), id) == Some(buffers[j].id),
        successor(buffers, connection_prefix(id), buffers[j].id) is None && buffers[j].id != id
            ==> replacement_of(buffers, id) == Some(buffers[j].id),
{
    buffers_are_found_by_id(buffers, id, k);
    let connection = connection_prefix(id);
    let p = |b: BufferView| shows_room(b, room) && on_connection(connection, b.id);
    lemma_first_from(buffers, p, 0);
    assert(p(buffers[j]));
    let at = first_index(buffers, p)->0;
    if at < j {
        assert(!shows_room(buffers[at], room));
    }
    reveal_with_fuel(crate::rooms::last_successor, 3);
}

// ---------------------------------------------------------------------------
// Uploads
// ---------------------------------------------------------------------------

/// An upload is over when one's own message with its name comes back in its
/// room, and by no other message.
pub proof fn uploads_end_with_their_own_message(
    state: AppView,
    room: Seq<char>,
    filename: Seq<char>,
    id: Seq<char>,
    media: Option<Seq<char>>,
)
    requires
        state.file_share_target_buffer_id == Some(room),
        state.file_share_expected_filename == Some(filename),
    ensures
        state.echo_seen(room, Some(filename), true).file_share_uploading == false,
        state.echo_seen(room, Some(filename), true).file_share_expected_filename is None,
        state.echo_seen(room, Some(filename), true).file_share_error is None,
        state.echo_seen(room, Some(filename), true).file_share_started_at is None,
        state.echo_seen(id, media, false) == state,
        id != room ==> state.echo_seen(id, media, true) == state,
        media != Some(filename) ==> state.echo_seen(id, media, true) == state,
{
}

/// An attachment that is ready is noted and sent to its room.
pub proof fn ready_attachments_are_sent(
    state: AppView,
    id: Seq<char>,
    k: int,
    i: int,
    raw_id: Seq<char>,
    upload_id: Seq<char>,
    filename: Seq<char>,
    mime: Seq<char>,
    bytes: Seq<u8>,
    ticks: u64,
    j: int,
)
    requires
        stands_at(state.buffers, id, k),
        is_owned(state.connections, id, i, raw_id),
        state.buffers[k].plugin == "matrix"@,
        state.buffers[k].matrix_upload_v1,
        filename.len() > 0,
        mime.len() > 0,
        0 < bytes.len() <= 10_485_760,
    ensures
        ({
            let commands = upload_commands(upload_id, filename, mime, bytes);
            let after = state.attachment_ready(id, upload_id, filename, mime, bytes, ticks);
            &&& after.file_share_target_buffer_id == Some(id)
            &&& after.file_share_expected_filename == Some(filename)
            &&& after.file_share_started_at == Some(ticks)
            &&& after.outbox.len() == state.outbox.len() + commands.len()
            &&& 0 <= j < commands.len() ==> after.outbox[state.outbox.len() as int + j]
                == (ActionView::SendMessage {
                conn: state.connections[i].prefix,
                raw_id,
                text: commands[j],
            })
        }),
{
    let noted = state.attachment_noted(id, filename, ticks);
    crate::laws::files::attachments_go_to_their_room(
        noted,
        id,
        k,
        i,
        raw_id,
        upload_id,
        filename,
        mime,
        bytes,
    );
}

/// A deletion that was agreed to is sent, and the question is gone.
pub proof fn agreed_deletions_are_sent(
    state: AppView,
    k: int,
    i: int,
    raw_id: Seq<char>,
)
    requires
        state.pending_redaction is Some,
        stands_at(state.buffers, state.pending_redaction->0.buffer_id, k),
        is_owned(state.connections, state.pending_redaction->0.buffer_id, i, raw_id),
        state.buffers[k].plugin == "matrix"@,
        state.pending_redaction->0.matrix_event_id.len() >= 2,
        state.pending_redaction->0.matrix_event_id[0] == '$',
        !crate::people::has_space(state.pending_redaction->0.matrix_event_id),
    ensures
        ({
            let target = state.pending_redaction->0;
            let after = state.redaction_confirmed();
            &&& after.pending_redaction is None
            &&& after.pending_redaction_error is None
            &&& after.outbox == state.outbox.push(
                ActionView::SendMessage {
                    conn: state.connections[i].prefix,
                    raw_id,
                    text: "/redact "@ + target.matrix_event_id,
                },
            )
        }),
{
    let target = state.pending_redaction->0;
    crate::laws::files::deletions_name_their_event(
        state,
        target.buffer_id,
        k,
        i,
        raw_id,
        target.matrix_event_id,
    );
    buffers_are_found_by_id(state.buffers, target.buffer_id, k);
    owners_are_found(state.connections, target.buffer_id, i, raw_id);
    reveal_strlit("$");
    assert(target.matrix_event_id.subrange(0, 1) =~= "$"@);
}

} // verus!
