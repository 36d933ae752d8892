//! Files: what is sent, what is refused, and what the user is told.
use vstd::prelude::*;
use vstd::utf8::encode_utf8;
use crate::encoding::{base64url, sha256_hex};
use crate::laws::given::{buffers_are_found_by_id, stands_at};
use crate::laws::texts::trimmed_texts_stay;
use crate::laws::writing::{is_owned, owners_are_found};
use crate::share::{attachment_plan, clipboard_share, paste_refusal, ClipboardRead};
use crate::state::{ActionView, AppView};
use crate::text::{decimal, is_space, split_on, starts_with};
use crate::uploads::{
    chunk, extension_type, file_refusal, prepared, refused_with, share_answer, upload_commands,
    PreparedView,
};

verus! {

// ---------------------------------------------------------------------------
// Uploads into a room
// ---------------------------------------------------------------------------

/// An upload is announced with the name, the kind, the size and the digest of
/// the file; then come its parts, numbered from zero and at most 24576 bytes
/// each; then it is committed.
pub proof fn uploads_are_announced_sent_and_committed(
    id: Seq<char>,
    filename: Seq<char>,
    mime: Seq<char>,
    bytes: Seq<u8>,
    k: int,
)
    requires
        bytes.len() > 0,
    ensures
        ({
            let list = upload_commands(id, filename, mime, bytes);
            let parts = list.len() - 2;
            &&& list.len() >= 3
            &&& list[0] == "/matrix-upload begin "@ + id + " "@ + base64url(encode_utf8(filename))
                + " "@ + mime + " "@ + decimal(bytes.len()) + " "@ + sha256_hex(bytes)
            &&& list.last() == "/matrix-upload commit "@ + id
            &&& (parts - 1) * 24576 < bytes.len() <= parts * 24576
            &&& 0 <= k < parts - 1 ==> list[k + 1] == "/matrix-upload chunk "@ + id + " "@
                + decimal(k as nat) + " "@ + base64url(
                bytes.subrange(k * 24576, (k + 1) * 24576),
            )
            &&& k == parts - 1 ==> list[k + 1] == "/matrix-upload chunk "@ + id + " "@ + decimal(
                k as nat,
            ) + " "@ + base64url(bytes.subrange(k * 24576, bytes.len() as int))
        }),
{
    let list = upload_commands(id, filename, mime, bytes);
    let parts = crate::uploads::chunk_count(bytes.len()) as int;
    let n = bytes.len() as int;
    vstd::arithmetic::div_mod::lemma_fundamental_div_mod(n + 24575, 24576);
    assert(list.len() == parts + 2);
    assert((parts - 1) * 24576 < n <= parts * 24576);
    if 0 <= k < parts {
        assert(list[k + 1] == crate::uploads::chunk_command(id, k, bytes));
        if k < parts - 1 {
            assert((k + 1) * 24576 <= (parts - 1) * 24576) by (nonlinear_arith)
                requires
                    k + 1 <= parts - 1,
            ;
            assert(k * 24576 + 24576 == (k + 1) * 24576) by (nonlinear_arith);
        } else {
            assert(k * 24576 + 24576 == (k + 1) * 24576) by (nonlinear_arith);
        }
    }
}

/// A file that can be attached is attached: all of its commands go to the room,
/// in their order. Otherwise the reason is told.
pub proof fn attachments_go_to_their_room(
    state: AppView,
    id: Seq<char>,
    k: int,
    i: int,
    raw_id: Seq<char>,
    upload_id: Seq<char>,
    filename: Seq<char>,
    mime: Seq<char>,
    bytes: Seq<u8>,
)
    requires
        stands_at(state.buffers, id, k),
        is_owned(state.connections, id, i, raw_id),
    ensures
        ({
            let b = state.buffers[k];
            let plan = attachment_plan(state, id, upload_id, filename, mime, bytes);
            &&& b.plugin == "matrix"@ && b.matrix_upload_v1 && filename.len() > 0 && mime.len() > 0
                && 0 < bytes.len() <= 10_485_760 ==> plan == Ok::<_, Seq<char>>(
                (
                    state.connections[i].prefix,
                    raw_id,
                    upload_commands(upload_id, filename, mime, bytes),
                ),
            )
            &&& b.plugin != "matrix"@ ==> plan is Err
            &&& !b.matrix_upload_v1 ==> plan is Err
            &&& bytes.len() == 0 || bytes.len() > 10_485_760 ==> plan is Err
        }),
{
    buffers_are_found_by_id(state.buffers, id, k);
    owners_are_found(state.connections, id, i, raw_id);
}

/// A message is deleted by naming its event to the room that it stands in, and
/// in no other way.
pub proof fn deletions_name_their_event(
    state: AppView,
    id: Seq<char>,
    k: int,
    i: int,
    raw_id: Seq<char>,
    event_id: Seq<char>,
)
    requires
        stands_at(state.buffers, id, k),
        is_owned(state.connections, id, i, raw_id),
        event_id.len() >= 2,
        !crate::people::has_space(event_id),
    ensures
        state.buffers[k].plugin == "matrix"@ && event_id[0] == '$' ==> state.redacting(
            id,
            event_id,
        ).outbox == state.outbox.push(
            ActionView::SendMessage {
                conn: state.connections[i].prefix,
                raw_id,
                text: "/redact "@ + event_id,
            },
        ),
        state.buffers[k].plugin != "matrix"@ || event_id[0] != '$' ==> state.redacting(
            id,
            event_id,
        ) == state,
{
    buffers_are_found_by_id(state.buffers, id, k);
    owners_are_found(state.connections, id, i, raw_id);
    reveal_strlit("$");
    assert(event_id.subrange(0, 1)[0] == event_id[0]);
    if event_id[0] == '$' {
        assert(event_id.subrange(0, 1) =~= "$"@);
    }
}

/// A clipboard image is attached as such, up to ten megabytes.
pub proof fn clipboard_images_are_attached(id: Seq<char>, bytes: Vec<u8>, error: String)
    ensures
        bytes@.len() <= 10_485_760 ==> clipboard_share(id, ClipboardRead::Image(bytes)) == Ok::<
            _,
            Seq<char>,
        >(
            PreparedView::MatrixAttachment {
                buffer_id: id,
                filename: "clipboard.png"@,
                mime: "image/png"@,
                bytes: bytes@,
            },
        ),
        bytes@.len() > 10_485_760 ==> clipboard_share(id, ClipboardRead::Image(bytes)) is Err,
        clipboard_share(id, ClipboardRead::NoImage) is Err,
        clipboard_share(id, ClipboardRead::Failed(error)) == Err::<PreparedView, _>(error@),
{
}

/// A file that was read whole is attached under its name, with all its bytes.
pub proof fn files_are_attached_whole(
    id: Seq<char>,
    name: Seq<char>,
    bytes: Seq<u8>,
    expected: u64,
    is_file: bool,
)
    ensures
        name.len() > 0 && bytes.len() == expected ==> match prepared(
            id,
            Some(name),
            bytes,
            expected,
        ) {
            Ok(PreparedView::MatrixAttachment { buffer_id, filename, mime, bytes: sent }) =>
                buffer_id == id && filename == name && sent == bytes,
            _ => false,
        },
        bytes.len() != expected ==> prepared(id, Some(name), bytes, expected) is Err,
        prepared(id, None, bytes, expected) is Err,
        file_refusal(is_file, expected) is None <==> is_file && 0 < expected <= 10_485_760,
{
}

/// The kind of a file follows from the ending of its name.
pub proof fn kinds_follow_from_endings(ending: Seq<char>)
    ensures
        ending == "png"@ ==> extension_type(ending) == "image/png"@,
        ending == "jpg"@ ==> extension_type(ending) == "image/jpeg"@,
        ending == "jpeg"@ ==> extension_type(ending) == "image/jpeg"@,
        ending != "png"@ ==> extension_type(ending) != "image/png"@,
        ending != "pdf"@ ==> extension_type(ending) != "application/pdf"@,
        ending != "zip"@ ==> extension_type(ending) != "application/zip"@,
        ending != "gif"@ ==> extension_type(ending) != "image/gif"@,
{
    reveal_strlit("png");
    reveal_strlit("jpg");
    reveal_strlit("jpeg");
    assert("png"@[0] != "jpg"@[0]);
    assert("jpeg"@.len() != "png"@.len());
    lemma_kinds();
}

proof fn lemma_kinds()
    ensures
        "image/jpeg"@ != "image/png"@,
        "image/gif"@ != "image/png"@,
        "image/webp"@ != "image/png"@,
        "image/svg+xml"@ != "image/png"@,
        "video/mp4"@ != "image/png"@,
        "video/webm"@ != "image/png"@,
        "audio/mpeg"@ != "image/png"@,
        "audio/ogg"@ != "image/png"@,
        "application/pdf"@ != "image/png"@,
        "application/zip"@ != "image/png"@,
        "text/plain"@ != "image/png"@,
        "application/octet-stream"@ != "image/png"@,
        "image/png"@ != "application/pdf"@,
        "image/jpeg"@ != "application/pdf"@,
        "image/gif"@ != "application/pdf"@,
        "image/webp"@ != "application/pdf"@,
        "image/svg+xml"@ != "application/pdf"@,
        "video/mp4"@ != "application/pdf"@,
        "video/webm"@ != "application/pdf"@,
        "audio/mpeg"@ != "application/pdf"@,
        "audio/ogg"@ != "application/pdf"@,
        "application/zip"@ != "application/pdf"@,
        "text/plain"@ != "application/pdf"@,
        "application/octet-stream"@ != "application/pdf"@,
        "image/png"@ != "application/zip"@,
        "image/jpeg"@ != "application/zip"@,
        "image/gif"@ != "application/zip"@,
        "image/webp"@ != "application/zip"@,
        "image/svg+xml"@ != "application/zip"@,
        "video/mp4"@ != "application/zip"@,
        "video/webm"@ != "application/zip"@,
        "audio/mpeg"@ != "application/zip"@,
        "audio/ogg"@ != "application/zip"@,
        "text/plain"@ != "application/zip"@,
        "application/octet-stream"@ != "application/zip"@,
        "image/jpeg"@ != "image/gif"@,
        "image/webp"@ != "image/gif"@,
        "image/svg+xml"@ != "image/gif"@,
        "video/mp4"@ != "image/gif"@,
        "video/webm"@ != "image/gif"@,
        "audio/mpeg"@ != "image/gif"@,
        "audio/ogg"@ != "image/gif"@,
        "application/pdf"@ != "image/gif"@,
        "application/zip"@ != "image/gif"@,
        "text/plain"@ != "image/gif"@,
        "application/octet-stream"@ != "image/gif"@,
{
    reveal_strlit("image/png");
    reveal_strlit("image/jpeg");
    reveal_strlit("image/gif");
    reveal_strlit("image/webp");
    reveal_strlit("image/svg+xml");
    reveal_strlit("video/mp4");
    reveal_strlit("video/webm");
    reveal_strlit("audio/mpeg");
    reveal_strlit("audio/ogg");
    reveal_strlit("application/pdf");
    reveal_strlit("application/zip");
    reveal_strlit("text/plain");
    reveal_strlit("application/octet-stream");
    assert("image/png"@.len() == 9 && "image/gif"@.len() == 9 && "video/mp4"@.len() == 9
        && "audio/ogg"@.len() == 9);
    assert("image/png"@[6] == 'p' && "image/gif"@[6] == 'g' && "video/mp4"@[0] == 'v'
        && "audio/ogg"@[0] == 'a' && "image/png"@[0] == 'i' && "image/gif"@[0] == 'i');
    assert("image/jpeg"@.len() == 10 && "image/webp"@.len() == 10 && "video/webm"@.len() == 10
        && "audio/mpeg"@.len() == 10 && "text/plain"@.len() == 10);
    assert("image/svg+xml"@.len() == 13 && "application/octet-stream"@.len() == 24);
    assert("application/pdf"@.len() == 15 && "application/zip"@.len() == 15);
    assert("application/pdf"@[12] == 'p' && "application/zip"@[12] == 'z');
}

// ---------------------------------------------------------------------------
// The file service
// ---------------------------------------------------------------------------

/// The code that the service answers becomes the address of the file, under its
/// name; an error stays an error.
pub proof fn codes_become_addresses(code: Seq<char>, rest: Seq<char>, filename: Seq<char>)
    requires
        code.len() > 0,
        !is_space(code[0]),
        !is_space(code.last()),
        forall|i: int| 0 <= i < code.len() ==> #[trigger] code[i] != '\n',
        code.len() < 1000,
    ensures
        !starts_with(code, "Error"@) ==> match crate::urls::url_with_fragment(
            "https://files.interdo.me/f.php"@ + "?h="@ + code + "&p=1"@,
            filename,
        ) {
            Ok(url) => share_answer(code, filename) == Ok::<_, Seq<char>>(url) && share_answer(
                code + seq!['\n'] + rest,
                filename,
            ) == Ok::<_, Seq<char>>(url),
            Err(_) => share_answer(code, filename) is Err,
        },
        starts_with(code, "Error"@) ==> share_answer(code, filename) == Err::<Seq<char>, _>(
            "Server error: "@ + code,
        ),
{
    trimmed_texts_stay(code);
    lemma_first_part(code, Seq::empty(), '\n');
    lemma_first_part(code, rest, '\n');
}

proof fn lemma_first_part(head: Seq<char>, rest: Seq<char>, mark: char)
    requires
        forall|i: int| 0 <= i < head.len() ==> #[trigger] head[i] != mark,
    ensures
        split_on(head + seq![mark] + rest, mark)[0] == head,
        split_on(head, mark)[0] == head,
    decreases head.len(),
{
    let text = head + seq![mark] + rest;
    crate::text::lemma_split_on_len(text.skip(1), mark);
    if head.len() == 0 {
        assert(split_on(text, mark)[0] =~= head);
        assert(split_on(head, mark)[0] =~= head);
    } else {
        let tail = head.skip(1);
        assert forall|i: int| 0 <= i < tail.len() implies #[trigger] tail[i] != mark by {
            assert(tail[i] == head[i + 1]);
        }
        lemma_first_part(tail, rest, mark);
        assert(text.skip(1) =~= tail + seq![mark] + rest);
        assert(text[0] == head[0]);
        assert(seq![head[0]] + tail =~= head);
        crate::text::lemma_split_on_len(tail, mark);
    }
}

/// An answer other than success is a refusal.
pub proof fn only_success_is_success(status: u16)
    ensures
        200 <= status <= 299 ==> refused_with(status) is None,
        status < 200 || status > 299 ==> refused_with(status) == Some(
            "Server returned "@ + crate::uploads::status_words(status),
        ),
{
}

// ---------------------------------------------------------------------------
// What the user is told
// ---------------------------------------------------------------------------

/// A share that began says so, for its buffer; one that ended no longer runs.
pub proof fn shares_begin_and_end(
    state: AppView,
    id: Seq<char>,
    status: Seq<char>,
    ticks: u64,
    done: Option<Seq<char>>,
    error: Seq<char>,
)
    ensures
        ({
            let begun = state.share_begun(id, status, ticks);
            let ended = begun.share_finished(done);
            &&& begun.file_share_uploading && begun.file_share_target_buffer_id == Some(id)
            &&& begun.file_share_status == Some(status) && begun.file_share_error is None
            &&& begun.file_share_started_at == Some(ticks)
            &&& !ended.file_share_uploading && ended.file_share_status == done
            &&& ended.file_share_started_at is None
            &&& state.share_error(error).file_share_error == Some(error)
            &&& begun.buffers == state.buffers && begun.outbox == state.outbox
        }),
{
}

/// The address of a shared file is sent to the buffer that it was meant for.
pub proof fn links_go_to_their_buffer(
    state: AppView,
    id: Seq<char>,
    i: int,
    raw_id: Seq<char>,
    url: Seq<char>,
)
    requires
        is_owned(state.connections, id, i, raw_id),
    ensures
        state.link_ready(id, url).outbox == state.outbox.push(
            ActionView::SendMessage { conn: state.connections[i].prefix, raw_id, text: url },
        ),
        !state.link_ready(id, url).file_share_uploading,
        state.link_ready(id, url).file_share_status == Some("✓ File link sent"@),
{
    owners_are_found(state.connections, id, i, raw_id);
}

/// A failure is told with its own words; a choice that was called off is not.
pub proof fn failures_are_told(state: AppView, error: Seq<char>)
    ensures
        error.len() > 0 ==> state.share_failed(error).file_share_error == Some(error)
            && !state.share_failed(error).file_share_uploading,
        error.len() == 0 ==> state.share_failed(error).file_share_error == state.file_share_error
            && !state.share_failed(error).file_share_uploading
            && state.share_failed(error).file_share_target_buffer_id is None,
{
}

/// An upload that the room did not show within ninety seconds is overdue.
pub proof fn uploads_are_overdue_after_ninety_seconds(state: AppView, ticks: u64, began: u64)
    requires
        state.file_share_uploading,
        state.file_share_started_at == Some(began),
    ensures
        state.share_overdue(ticks) <==> ticks - began >= 90_000_000_000,
{
}

/// An image can be pasted into a Matrix chat that takes uploads, one at a time.
pub proof fn images_are_pasted_into_matrix_chats(state: AppView, id: Seq<char>, k: int)
    requires
        stands_at(state.buffers, id, k),
    ensures
        paste_refusal(state, id) is None <==> !state.file_share_uploading && state.buffers[k].plugin
            == "matrix"@ && state.buffers[k].matrix_upload_v1,
{
    buffers_are_found_by_id(state.buffers, id, k);
}

} // verus!
