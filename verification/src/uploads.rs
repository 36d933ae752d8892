//! Sending files.
use vstd::prelude::*;
use vstd::string::{StringExecFns, StringSliceAdditionalSpecFns};
use vstd::utf8::encode_utf8;
use crate::encoding::{base64url, base64url_decoded, digest_hex, encode_base64url, sha256_hex};
use crate::models::{Buffer, BufferView, MatrixMedia};
use crate::people::{any_whitespace, has_space};
use crate::text::{
    chars_of, decimal, join2, join3, lemma_split_on_len, lowercase, opt_str, opt_text,
    same_text, split_on, starts_with, str_split, str_starts_with, str_trim, texts, to_lowercase,
    trim, usize_text,
};
use crate::urls::{result_view, url_with_fragment, with_fragment};

verus! {

/// How long the payload of one upload command may be.
pub const MATRIX_UPLOAD_MAX_ENCODED_CHUNK: usize = 32_768;

/// How many bytes go into one upload command.
pub const MATRIX_UPLOAD_RAW_CHUNK: usize = 24_576;

/// How large an attachment may be.
pub const MATRIX_UPLOAD_MAX_BYTES: usize = 10_485_760;

/// How long an upload waits to be seen in the chat, in nanoseconds.
pub const MATRIX_UPLOAD_CONFIRMATION_TIMEOUT: u64 = 90_000_000_000;

// ---------------------------------------------------------------------------
// Deleting a message
// ---------------------------------------------------------------------------

/// An event id that a command can name.
pub open spec fn is_command_event_id(event_id: Seq<char>) -> bool {
    starts_with(event_id, "$"@) && event_id.len() >= 2 && !has_space(event_id)
}

pub fn matrix_redact_command(event_id: &str) -> (command: Result<String, String>)
    ensures
        result_view(command) == (if is_command_event_id(event_id@) {
            Ok("/redact "@ + event_id@)
        } else {
            Err("This line has no valid Matrix event ID"@)
        }),
{
    if !str_starts_with(event_id, "$") || chars_of(event_id).len() < 2 || any_whitespace(event_id) {
        return Err("This line has no valid Matrix event ID".to_owned());
    }
    Ok(join2("/redact ", event_id))
}

// ---------------------------------------------------------------------------
// Attachments
// ---------------------------------------------------------------------------

/// Whether a line is the own echo of the attachment that is being sent.
pub open spec fn echo_matches(
    target_buffer_id: Option<Seq<char>>,
    expected_filename: Option<Seq<char>>,
    buffer_id: Seq<char>,
    media_name: Option<Seq<char>>,
    is_self_msg: bool,
) -> bool {
    is_self_msg && target_buffer_id == Some(buffer_id) && media_name is Some && expected_filename
        == media_name
}

pub open spec fn media_name(media: Option<&MatrixMedia>) -> Option<Seq<char>> {
    match media {
        Some(m) => Some(m@.name),
        None => None,
    }
}

pub fn matrix_attachment_echo_matches(
    target_buffer_id: Option<&str>,
    expected_filename: Option<&str>,
    buffer_id: &str,
    media: Option<&MatrixMedia>,
    is_self_msg: bool,
) -> (yes: bool)
    ensures
        yes == echo_matches(
            opt_str(target_buffer_id),
            opt_str(expected_filename),
            buffer_id@,
            media_name(media),
            is_self_msg,
        ),
{
    is_self_msg && (match target_buffer_id {
        Some(target) => same_text(target, buffer_id),
        None => false,
    }) && (match (media, expected_filename) {
        (Some(media), Some(name)) => same_text(name, media.name.as_str()),
        _ => false,
    })
}

/// How many commands the bytes of an attachment take.
pub open spec fn chunk_count(n: nat) -> nat {
    (n + MATRIX_UPLOAD_RAW_CHUNK - 1) as nat / MATRIX_UPLOAD_RAW_CHUNK as nat
}

/// The bytes of one command.
pub open spec fn chunk(bytes: Seq<u8>, k: int) -> Seq<u8> {
    let from = k * MATRIX_UPLOAD_RAW_CHUNK;
    let to = from + MATRIX_UPLOAD_RAW_CHUNK;
    bytes.subrange(
        from,
        if to <= bytes.len() {
            to
        } else {
            bytes.len() as int
        },
    )
}

/// The command that announces an attachment, given its encoded name and its
/// digest.
pub open spec fn announcement(
    id: Seq<char>,
    name: Seq<char>,
    mime: Seq<char>,
    len: nat,
    digest: Seq<char>,
) -> Seq<char> {
    "/matrix-upload begin "@ + id + " "@ + name + " "@ + mime + " "@ + decimal(len) + " "@ + digest
}

/// The command that carries one part of an attachment, given the encoded part.
pub open spec fn part_command(id: Seq<char>, k: nat, encoded: Seq<char>) -> Seq<char> {
    "/matrix-upload chunk "@ + id + " "@ + decimal(k) + " "@ + encoded
}

pub open spec fn begin_command(id: Seq<char>, filename: Seq<char>, mime: Seq<char>, bytes: Seq<u8>) -> Seq<
    char,
> {
    announcement(id, base64url(encode_utf8(filename)), mime, bytes.len(), sha256_hex(bytes))
}

pub open spec fn chunk_command(id: Seq<char>, k: int, bytes: Seq<u8>) -> Seq<char> {
    part_command(id, k as nat, base64url(chunk(bytes, k)))
}

/// The command that announces an attachment, given its encoded name and its
/// digest.
pub fn upload_announcement(id: &str, name: &str, mime: &str, len: usize, digest: &str) -> (command:
    String)
    ensures
        command@ == announcement(id@, name@, mime@, len as nat, digest@),
{
    let size = usize_text(len);
    let mut command = join3("/matrix-upload begin ", id, " ");
    command.append(name);
    command.append(" ");
    command.append(mime);
    command.append(" ");
    command.append(size.as_str());
    command.append(" ");
    command.append(digest);
    assert(command@ =~= announcement(id@, name@, mime@, len as nat, digest@));
    command
}

/// The command that carries one part of an attachment, given the encoded part.
pub fn upload_part(id: &str, sequence: usize, encoded: &str) -> (command: String)
    ensures
        command@ == part_command(id@, sequence as nat, encoded@),
{
    let number = usize_text(sequence);
    let mut command = join3("/matrix-upload chunk ", id, " ");
    command.append(number.as_str());
    command.append(" ");
    command.append(encoded);
    assert(command@ =~= part_command(id@, sequence as nat, encoded@));
    command
}

pub open spec fn commit_command(id: Seq<char>) -> Seq<char> {
    "/matrix-upload commit "@ + id
}

/// The commands that carry an attachment: one that announces it, its bytes in
/// order, and one that ends it.
pub open spec fn upload_commands(
    id: Seq<char>,
    filename: Seq<char>,
    mime: Seq<char>,
    bytes: Seq<u8>,
) -> Seq<Seq<char>> {
    seq![begin_command(id, filename, mime, bytes)] + Seq::new(
        chunk_count(bytes.len()),
        |k: int| chunk_command(id, k, bytes),
    ) + seq![commit_command(id)]
}

pub open spec fn is_valid_attachment(filename: Seq<char>, mime: Seq<char>, bytes: Seq<u8>) -> bool {
    filename.len() > 0 && mime.len() > 0 && 0 < bytes.len() <= MATRIX_UPLOAD_MAX_BYTES
}

/// The commands that carry an attachment through the relay. Every payload fits
/// into a command and decodes to its part of the bytes.
pub fn matrix_attachment_upload(id: String, filename: &str, mime: &str, bytes: &[u8]) -> (commands:
    Result<Vec<String>, String>)
    ensures
        match commands {
            Ok(list) => is_valid_attachment(filename@, mime@, bytes@) && texts(list@)
                == upload_commands(id@, filename@, mime@, bytes@) && forall|k: int|
                0 <= k < chunk_count(bytes@.len()) ==> base64url_decoded(
                    base64url(#[trigger] chunk(bytes@, k)),
                ) == Some(chunk(bytes@, k)) && base64url(chunk(bytes@, k)).len()
                    <= MATRIX_UPLOAD_MAX_ENCODED_CHUNK,
            Err(error) => !is_valid_attachment(filename@, mime@, bytes@) && error@
                == "Matrix attachment metadata or size is invalid (maximum 10 MiB)"@,
        },
{
    if filename.is_empty() || mime.is_empty() || bytes.len() == 0 || bytes.len()
        > MATRIX_UPLOAD_MAX_BYTES {
        return Err("Matrix attachment metadata or size is invalid (maximum 10 MiB)".to_owned());
    }
    let total: usize = bytes.len();
    let name = encode_base64url(filename.as_bytes());
    let digest = digest_hex(bytes);
    let begin = upload_announcement(id.as_str(), name.as_str(), mime, total, digest.as_str());
    let mut commands: Vec<String> = Vec::new();
    let ghost head = begin_command(id@, filename@, mime@, bytes@);
    assert(begin@ =~= head);
    commands.push(begin);
    let ghost all = Seq::new(
        chunk_count(bytes@.len()),
        |k: int| chunk_command(id@, k, bytes@),
    );
    let mut from: usize = 0;
    let mut sequence: usize = 0;
    assert(texts(commands@) =~= seq![head] + all.take(0));
    while from < total
        invariant
            total == bytes@.len(),
            total <= MATRIX_UPLOAD_MAX_BYTES,
            from == sequence * MATRIX_UPLOAD_RAW_CHUNK || from == total,
            from < total ==> from == sequence * MATRIX_UPLOAD_RAW_CHUNK,
            from == total ==> sequence == chunk_count(total as nat),
            from <= total,
            sequence <= chunk_count(total as nat),
            all == Seq::new(
                chunk_count(bytes@.len()),
                |k: int| chunk_command(id@, k, bytes@),
            ),
            texts(commands@) == seq![head] + all.take(sequence as int),
            forall|k: int|
                0 <= k < sequence ==> base64url_decoded(base64url(#[trigger] chunk(bytes@, k)))
                    == Some(chunk(bytes@, k)) && base64url(chunk(bytes@, k)).len()
                    <= MATRIX_UPLOAD_MAX_ENCODED_CHUNK,
        decreases total - from,
    {
        let to: usize = if total - from > MATRIX_UPLOAD_RAW_CHUNK {
            from + MATRIX_UPLOAD_RAW_CHUNK
        } else {
            total
        };
        let part = vstd::slice::slice_subrange(bytes, from, to);
        assert(part@ =~= chunk(bytes@, sequence as int));
        let encoded = encode_base64url(part);
        let command = upload_part(id.as_str(), sequence, encoded.as_str());
        let ghost before = commands@;
        assert(command@ =~= chunk_command(id@, sequence as int, bytes@));
        commands.push(command);
        proof {
            assert(chunk_count(total as nat) > sequence) by (nonlinear_arith)
                requires
                    chunk_count(total as nat) == (total + 24_576 - 1) as nat / 24_576,
                    sequence * 24_576 < total,
            ;
            if to == total {
                assert(chunk_count(total as nat) == sequence + 1) by (nonlinear_arith)
                    requires
                        chunk_count(total as nat) == (total + 24_576 - 1) as nat / 24_576,
                        sequence * 24_576 < total,
                        total <= sequence * 24_576 + 24_576,
                ;
            }
            assert(all[sequence as int] == chunk_command(id@, sequence as int, bytes@));
            assert(texts(commands@) =~= texts(before).push(all[sequence as int]));
            assert(all.take(sequence + 1) =~= all.take(sequence as int).push(
                all[sequence as int],
            ));
            assert(texts(commands@) =~= seq![head] + all.take(sequence + 1));
        }
        from = to;
        sequence = sequence + 1;
    }
    let ghost before = commands@;
    assert(all.take(sequence as int) =~= all);
    commands.push(join2("/matrix-upload commit ", id.as_str()));
    assert(texts(commands@) =~= upload_commands(id@, filename@, mime@, bytes@));
    Ok(commands)
}

/// The first `n` parts of the bytes, put together.
pub open spec fn joined_chunks(bytes: Seq<u8>, n: nat) -> Seq<u8>
    decreases n,
{
    if n == 0 {
        Seq::empty()
    } else {
        joined_chunks(bytes, (n - 1) as nat) + chunk(bytes, n - 1)
    }
}

proof fn lemma_joined_chunks(bytes: Seq<u8>, n: nat)
    requires
        n <= chunk_count(bytes.len()),
    ensures
        joined_chunks(bytes, n) == bytes.take(
            if n * MATRIX_UPLOAD_RAW_CHUNK <= bytes.len() {
                n * MATRIX_UPLOAD_RAW_CHUNK
            } else {
                bytes.len() as int
            },
        ),
    decreases n,
{
    if n == 0 {
        assert(bytes.take(0) =~= Seq::empty());
    } else {
        lemma_joined_chunks(bytes, (n - 1) as nat);
        let from = (n - 1) * MATRIX_UPLOAD_RAW_CHUNK;
        assert(from <= bytes.len()) by (nonlinear_arith)
            requires
                from == (n - 1) * 24_576,
                n <= (bytes.len() + 24_576 - 1) as nat / 24_576,
        ;
        assert(n * MATRIX_UPLOAD_RAW_CHUNK == from + MATRIX_UPLOAD_RAW_CHUNK) by (nonlinear_arith)
            requires
                from == (n - 1) * MATRIX_UPLOAD_RAW_CHUNK,
        ;
        assert(joined_chunks(bytes, n) =~= bytes.take(
            if n * MATRIX_UPLOAD_RAW_CHUNK <= bytes.len() {
                n * MATRIX_UPLOAD_RAW_CHUNK
            } else {
                bytes.len() as int
            },
        ));
    }
}

/// The parts of an attachment, put together in order, are its bytes, and none
/// of them is empty or longer than a command allows.
pub proof fn upload_parts_are_the_bytes(bytes: Seq<u8>)
    ensures
        joined_chunks(bytes, chunk_count(bytes.len())) == bytes,
        forall|k: int|
            0 <= k < chunk_count(bytes.len()) ==> 0 < (#[trigger] chunk(bytes, k)).len()
                <= MATRIX_UPLOAD_RAW_CHUNK,
{
    let n = chunk_count(bytes.len());
    lemma_joined_chunks(bytes, n);
    assert(n * 24_576 >= bytes.len()) by (nonlinear_arith)
        requires
            n == (bytes.len() + 24_576 - 1) as nat / 24_576,
    ;
    assert(bytes.take(bytes.len() as int) =~= bytes);
    if n * MATRIX_UPLOAD_RAW_CHUNK == bytes.len() {
        assert(bytes.take(n * MATRIX_UPLOAD_RAW_CHUNK) =~= bytes);
    }
    assert forall|k: int| 0 <= k < n implies 0 < (#[trigger] chunk(bytes, k)).len()
        <= MATRIX_UPLOAD_RAW_CHUNK by {
        assert(k * 24_576 < bytes.len()) by (nonlinear_arith)
            requires
                0 <= k < n,
                n == (bytes.len() + 24_576 - 1) as nat / 24_576,
        ;
    }
}

// ---------------------------------------------------------------------------
// Upload ids
// ---------------------------------------------------------------------------

pub open spec fn hex_char(d: nat) -> char {
    if d < 10 {
        (48 + d) as u8 as char
    } else {
        (87 + d) as u8 as char
    }
}

/// A number in lower-case hexadecimal digits.
pub open spec fn hex(n: nat) -> Seq<char>
    decreases n,
{
    if n < 16 {
        seq![hex_char(n)]
    } else {
        hex(n / 16).push(hex_char(n % 16))
    }
}

pub fn hex_text(n: u64) -> (text: String)
    ensures
        text@ == hex(n as nat),
    decreases n,
{
    let mut text = if n < 16 {
        String::new()
    } else {
        hex_text(n / 16)
    };
    let d: u8 = (n % 16) as u8;
    let ghost before = text@;
    text.push(
        if d < 10 {
            (48 + d) as char
        } else {
            (87 + d) as char
        },
    );
    assert(n < 16 ==> before =~= Seq::empty());
    assert(n < 16 ==> text@ =~= seq![hex_char(n as nat)]);
    text
}

/// The two's complement of a signed number.
pub open spec fn unsigned_of(n: i64) -> nat {
    if n < 0 {
        (n + 0x1_0000_0000_0000_0000) as nat
    } else {
        n as nat
    }
}

/// The id of an upload, from the time and a number that no other upload of this
/// run has.
pub fn matrix_upload_id(nanos: i64, sequence: u64) -> (id: String)
    ensures
        id@ == "clip"@ + hex(unsigned_of(nanos)) + hex(sequence as nat),
{
    let unsigned: u64 = if nanos < 0 {
        (nanos as i128 + 0x1_0000_0000_0000_0000) as u64
    } else {
        nanos as u64
    };
    let time = hex_text(unsigned);
    let number = hex_text(sequence);
    join3("clip", time.as_str(), number.as_str())
}

// ---------------------------------------------------------------------------
// Files
// ---------------------------------------------------------------------------

/// A file that is ready to be sent.
#[derive(Debug)]
pub enum PreparedFileShare {
    MatrixAttachment { buffer_id: String, filename: String, mime: String, bytes: Vec<u8> },
    ExternalLink { buffer_id: String, url: String },
}

pub ghost enum PreparedView {
    MatrixAttachment {
        buffer_id: Seq<char>,
        filename: Seq<char>,
        mime: Seq<char>,
        bytes: Seq<u8>,
    },
    ExternalLink { buffer_id: Seq<char>, url: Seq<char> },
}

impl View for PreparedFileShare {
    type V = PreparedView;

    open spec fn view(&self) -> PreparedView {
        match self {
            PreparedFileShare::MatrixAttachment { buffer_id, filename, mime, bytes } =>
                PreparedView::MatrixAttachment {
                buffer_id: buffer_id@,
                filename: filename@,
                mime: mime@,
                bytes: bytes@,
            },
            PreparedFileShare::ExternalLink { buffer_id, url } => PreparedView::ExternalLink {
                buffer_id: buffer_id@,
                url: url@,
            },
        }
    }
}

/// Why a file cannot be an attachment, as far as its metadata tell.
pub open spec fn file_refusal(is_file: bool, len: u64) -> Option<Seq<char>> {
    if !is_file {
        Some("Matrix attachment must be a regular file"@)
    } else if len == 0 || len > MATRIX_UPLOAD_MAX_BYTES {
        Some("Matrix attachments must be between 1 byte and 10 MiB"@)
    } else {
        None
    }
}

pub fn matrix_file_refusal(is_file: bool, len: u64) -> (refusal: Option<String>)
    ensures
        opt_text(refusal) == file_refusal(is_file, len),
{
    if !is_file {
        Some("Matrix attachment must be a regular file".to_owned())
    } else if len == 0 || len > MATRIX_UPLOAD_MAX_BYTES as u64 {
        Some("Matrix attachments must be between 1 byte and 10 MiB".to_owned())
    } else {
        None
    }
}

/// An attachment from a file that was read.
pub open spec fn prepared(
    buffer_id: Seq<char>,
    filename: Option<Seq<char>>,
    bytes: Seq<u8>,
    expected_len: u64,
) -> Result<PreparedView, Seq<char>> {
    match filename {
        Some(name) if name.len() > 0 => if bytes.len() != expected_len {
            Err("Matrix attachment changed while it was being read"@)
        } else {
            Ok(
                PreparedView::MatrixAttachment {
                    buffer_id,
                    filename: name,
                    mime: mime_type(name),
                    bytes,
                },
            )
        },
        _ => Err("Matrix attachment has no file name"@),
    }
}

pub open spec fn prepared_view(result: Result<PreparedFileShare, String>) -> Result<
    PreparedView,
    Seq<char>,
> {
    match result {
        Ok(p) => Ok(p@),
        Err(e) => Err(e@),
    }
}

/// The attachment that a file makes, from its name, its bytes and the length
/// that it was said to have.
pub fn prepare_matrix_attachment(
    buffer_id: String,
    filename: Option<String>,
    bytes: Vec<u8>,
    expected_len: u64,
) -> (result: Result<PreparedFileShare, String>)
    ensures
        prepared_view(result) == prepared(buffer_id@, opt_text(filename), bytes@, expected_len),
{
    match filename {
        Some(filename) => {
            if filename.as_str().is_empty() {
                return Err("Matrix attachment has no file name".to_owned());
            }
            let mime = mime_for(filename.as_str());
            if bytes.len() as u64 != expected_len {
                return Err("Matrix attachment changed while it was being read".to_owned());
            }
            Ok(
                PreparedFileShare::MatrixAttachment {
                    buffer_id,
                    filename,
                    mime: mime.to_owned(),
                    bytes,
                },
            )
        },
        None => Err("Matrix attachment has no file name".to_owned()),
    }
}

/// The type of a file with an extension in lower case.
pub open spec fn extension_type(ext: Seq<char>) -> Seq<char> {
    if ext == "png"@ {
        "image/png"@
    } else if ext == "jpg"@ || ext == "jpeg"@ {
        "image/jpeg"@
    } else if ext == "gif"@ {
        "image/gif"@
    } else if ext == "webp"@ {
        "image/webp"@
    } else if ext == "svg"@ {
        "image/svg+xml"@
    } else if ext == "mp4"@ {
        "video/mp4"@
    } else if ext == "webm"@ {
        "video/webm"@
    } else if ext == "mp3"@ {
        "audio/mpeg"@
    } else if ext == "ogg"@ {
        "audio/ogg"@
    } else if ext == "pdf"@ {
        "application/pdf"@
    } else if ext == "zip"@ {
        "application/zip"@
    } else if ext == "txt"@ || ext == "log"@ || ext == "md"@ {
        "text/plain"@
    } else {
        "application/octet-stream"@
    }
}

/// The type of a file by what stands behind the last dot of its name.
pub open spec fn mime_type(filename: Seq<char>) -> Seq<char> {
    extension_type(lowercase(split_on(filename, '.').last()))
}

/// The type of a file with an extension in lower case.
pub fn mime_for_extension(ext: &str) -> (mime: &'static str)
    ensures
        mime@ == extension_type(ext@),
{
    if same_text(ext, "png") {
        "image/png"
    } else if same_text(ext, "jpg") || same_text(ext, "jpeg") {
        "image/jpeg"
    } else if same_text(ext, "gif") {
        "image/gif"
    } else if same_text(ext, "webp") {
        "image/webp"
    } else if same_text(ext, "svg") {
        "image/svg+xml"
    } else if same_text(ext, "mp4") {
        "video/mp4"
    } else if same_text(ext, "webm") {
        "video/webm"
    } else if same_text(ext, "mp3") {
        "audio/mpeg"
    } else if same_text(ext, "ogg") {
        "audio/ogg"
    } else if same_text(ext, "pdf") {
        "application/pdf"
    } else if same_text(ext, "zip") {
        "application/zip"
    } else if same_text(ext, "txt") || same_text(ext, "log") || same_text(ext, "md") {
        "text/plain"
    } else {
        "application/octet-stream"
    }
}

/// The type of a file by its name.
pub fn mime_for(filename: &str) -> (mime: &'static str)
    ensures
        mime@ == mime_type(filename@),
{
    let parts = str_split(filename, '.');
    proof {
        lemma_split_on_len(filename@, '.');
        assert(texts(parts@).last() == parts@.last()@);
    }
    let ext = to_lowercase(parts[parts.len() - 1].as_str());
    mime_for_extension(ext.as_str())
}

// ---------------------------------------------------------------------------
// The file-share service
// ---------------------------------------------------------------------------

/// How many characters a file code may have: with more of them, the address may
/// grow beyond what the address library can hold.
pub const MAX_FILE_CODE: usize = 0x0fff_0000;

pub const DOWNLOAD_BASE: &'static str = "https://files.interdo.me/f.php";

/// How long a shared file is kept: one of the words that the service knows.
pub open spec fn is_share_time(duration: Seq<char>) -> bool {
    duration == "minute"@ || duration == "hour"@ || duration == "day"@ || duration == "week"@
        || duration == "fortnight"@ || duration == "month"@ || duration == "quarter"@ || duration
        == "year"@ || duration == "none"@
}

/// The word for how long a shared file is kept; a day where the given one is
/// not known.
pub fn share_time(duration: &str) -> (time: &str)
    ensures
        time@ == (if is_share_time(duration@) {
            duration@
        } else {
            "day"@
        }),
{
    if same_text(duration, "minute") || same_text(duration, "hour") || same_text(duration, "day")
        || same_text(duration, "week") || same_text(duration, "fortnight") || same_text(
        duration,
        "month",
    ) || same_text(duration, "quarter") || same_text(duration, "year") || same_text(
        duration,
        "none",
    ) {
        duration
    } else {
        "day"
    }
}

/// The address of a shared file that shows it at once. Its fragment keeps the
/// name, so that an image is known as one. There is none for a code that is too
/// long for an address.
pub open spec fn download_url(file_code: Seq<char>, filename: Seq<char>) -> Result<
    Seq<char>,
    Seq<char>,
> {
    if file_code.len() >= MAX_FILE_CODE {
        Err("Invalid download URL: the file code is too long"@)
    } else {
        match url_with_fragment(DOWNLOAD_BASE@ + "?h="@ + file_code + "&p=1"@, filename) {
            Ok(url) => Ok(url),
            Err(error) => Err("Invalid download URL: "@ + error),
        }
    }
}

/// What is told of an address that was or was not made.
pub fn download_url_from(made: Result<String, String>) -> (result: Result<String, String>)
    ensures
        result_view(result) == (match made {
            Ok(url) => Ok(url@),
            Err(error) => Err("Invalid download URL: "@ + error@),
        }),
{
    match made {
        Ok(url) => Ok(url),
        Err(error) => Err(join2("Invalid download URL: ", error.as_str())),
    }
}

pub fn direct_download_url(file_code: &str, filename: &str) -> (result: Result<String, String>)
    ensures
        result_view(result) == download_url(file_code@, filename@),
{
    if file_code.unicode_len() >= MAX_FILE_CODE {
        return Err("Invalid download URL: the file code is too long".to_owned());
    }
    let mut text = join3(DOWNLOAD_BASE, "?h=", file_code);
    text.append("&p=1");
    proof {
        reveal_strlit("https://files.interdo.me/f.php");
        reveal_strlit("?h=");
        reveal_strlit("&p=1");
    }
    download_url_from(with_fragment(text.as_str(), filename))
}

/// The first line of a text, trimmed.
pub open spec fn first_line(body: Seq<char>) -> Seq<char> {
    trim(split_on(body, '\n')[0])
}

/// What the service answered to an upload.
pub open spec fn share_answer(body: Seq<char>, filename: Seq<char>) -> Result<Seq<char>, Seq<char>> {
    let line = first_line(body);
    if starts_with(line, "Error"@) || line.len() == 0 {
        Err("Server error: "@ + line)
    } else {
        download_url(line, filename)
    }
}

/// The address of a shared file, from what the service answered: the code of
/// the file in the first line, or an error.
pub fn share_url(body: &str, filename: &str) -> (result: Result<String, String>)
    ensures
        result_view(result) == share_answer(body@, filename@),
{
    let lines = str_split(body, '\n');
    proof {
        lemma_split_on_len(body@, '\n');
        assert(texts(lines@)[0] == lines@[0]@);
    }
    let line = str_trim(lines[0].as_str());
    if str_starts_with(line.as_str(), "Error") || line.as_str().is_empty() {
        return Err(join2("Server error: ", line.as_str()));
    }
    direct_download_url(line.as_str(), filename)
}

/// How the HTTP library writes a status: its number and what it stands for.
pub uninterp spec fn status_words(status: u16) -> Seq<char>;

/// `reqwest::StatusCode::from_u16`, then `to_string`. A number of three digits
/// is always a status.
#[verifier::external_body]
pub(crate) fn status_text(status: u16) -> (text: String)
    requires
        100 <= status <= 999,
    ensures
        text@ == status_words(status),
{
    reqwest::StatusCode::from_u16(status).unwrap().to_string()
}

/// Whether an HTTP status says that the request was met.
pub open spec fn is_success(status: u16) -> bool {
    200 <= status < 300
}

/// Why an upload that was answered with a status failed. None where it did not.
pub open spec fn refused_with(status: u16) -> Option<Seq<char>> {
    if is_success(status) {
        None
    } else {
        Some("Server returned "@ + status_words(status))
    }
}

pub fn status_refusal(status: u16) -> (refusal: Option<String>)
    requires
        100 <= status <= 999,
    ensures
        opt_text(refusal) == refused_with(status),
{
    if 200 <= status && status < 300 {
        None
    } else {
        Some(join2("Server returned ", status_text(status).as_str()))
    }
}

/// What became of an upload: the address of the file, where the service
/// answered with success and with a code for the file, and an error otherwise.
pub fn share_result(status: u16, body: &str, filename: &str) -> (result: Result<String, String>)
    requires
        100 <= status <= 999,
    ensures
        result_view(result) == (match refused_with(status) {
            Some(error) => Err(error),
            None => share_answer(body@, filename@),
        }),
{
    match status_refusal(status) {
        Some(error) => Err(error),
        None => share_url(body, filename),
    }
}

// ---------------------------------------------------------------------------
// Where a file goes
// ---------------------------------------------------------------------------

/// The buffer that a pasted image goes to. The composer of a thread never
/// sends to the room.
pub fn clipboard_upload_target(
    thread_composer_focused: bool,
    thread_buffer_id: Option<&str>,
    room_buffer_id: Option<&str>,
) -> (target: Option<String>)
    ensures
        opt_text(target) == (if thread_composer_focused {
            opt_str(thread_buffer_id)
        } else {
            opt_str(room_buffer_id)
        }),
{
    let target = if thread_composer_focused {
        thread_buffer_id
    } else {
        room_buffer_id
    };
    match target {
        Some(id) => Some(id.to_owned()),
        None => None,
    }
}

/// Whether files can be sent into a buffer as Matrix attachments.
pub open spec fn takes_uploads(b: BufferView) -> bool {
    b.plugin == "matrix"@ && b.matrix_upload_v1
}

pub fn buffer_supports_matrix_upload(buffer: Option<&Buffer>) -> (yes: bool)
    ensures
        yes == (buffer is Some && takes_uploads(buffer->0@)),
{
    match buffer {
        Some(b) => same_text(b.plugin.as_str(), "matrix") && b.matrix_upload_v1,
        None => false,
    }
}

} // verus!
