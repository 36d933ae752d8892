//! Sending files and deleting messages, and what the user is told about it.
use vstd::prelude::*;
use crate::models::MatrixMedia;
use crate::seqs::views;
use crate::state::{buffer_of, Action, ActionView, AppView, Clock, WeeChatApp};
use crate::text::{clone_opt, join2, join3, opt_text, same_text, texts};
use crate::uploads::{
    buffer_supports_matrix_upload, echo_matches, is_command_event_id, is_valid_attachment,
    matrix_attachment_echo_matches, matrix_attachment_upload, matrix_redact_command, media_name,
    takes_uploads, upload_commands, PreparedFileShare, PreparedView, MATRIX_UPLOAD_CONFIRMATION_TIMEOUT,
    MATRIX_UPLOAD_MAX_BYTES,
};

verus! {

impl AppView {
    pub open spec fn is_matrix(self, id: Seq<char>) -> bool {
        buffer_of(self.buffers, id) is Some && buffer_of(self.buffers, id)->0.plugin == "matrix"@
    }

    pub open spec fn supports_upload(self, id: Seq<char>) -> bool {
        buffer_of(self.buffers, id) is Some && takes_uploads(buffer_of(self.buffers, id)->0)
    }

    /// The state with a file on its way to a buffer.
    pub open spec fn share_begun(self, id: Seq<char>, status: Seq<char>, ticks: u64) -> AppView {
        AppView {
            file_share_uploading: true,
            file_share_target_buffer_id: Some(id),
            file_share_expected_filename: None,
            file_share_started_at: Some(ticks),
            file_share_status: Some(status),
            file_share_error: None,
            ..self
        }
    }

    /// The state with no file on its way any more.
    pub open spec fn share_finished(self, status: Option<Seq<char>>) -> AppView {
        AppView {
            file_share_uploading: false,
            file_share_started_at: None,
            file_share_expected_filename: None,
            file_share_status: status,
            ..self
        }
    }

    pub open spec fn share_error(self, error: Seq<char>) -> AppView {
        AppView { file_share_error: Some(error), ..self }
    }

    /// The state after a line came that may be the echo of the file.
    pub open spec fn echo_seen(self, id: Seq<char>, media: Option<Seq<char>>, is_self_msg: bool) -> AppView {
        if echo_matches(
            self.file_share_target_buffer_id,
            self.file_share_expected_filename,
            id,
            media,
            is_self_msg,
        ) {
            AppView { file_share_error: None, ..self }.share_finished(
                Some("✓ Sent "@ + self.file_share_expected_filename->0),
            )
        } else {
            self
        }
    }

    /// The state with texts sent to a buffer, in order.
    pub open spec fn sending_all(self, conn: Seq<char>, raw_id: Seq<char>, list: Seq<Seq<char>>) -> AppView {
        AppView {
            outbox: self.outbox + list.map_values(
                |text: Seq<char>| ActionView::SendMessage { conn, raw_id, text },
            ),
            ..self
        }
    }
}

/// The words for a backend that takes no attachments.
pub open spec fn no_native_upload() -> Seq<char> {
    "Cannot send this attachment: the Matrix backend does not support native uploads. Update or restart the Matrix plugin."@
}

/// What comes of sending an attachment: the commands that carry it, and where
/// they go, or why it cannot be sent.
pub open spec fn attachment_plan(
    state: AppView,
    id: Seq<char>,
    upload_id: Seq<char>,
    filename: Seq<char>,
    mime: Seq<char>,
    bytes: Seq<u8>,
) -> Result<(Seq<char>, Seq<char>, Seq<Seq<char>>), Seq<char>> {
    if !state.is_matrix(id) {
        Err("Attachment target is not a Matrix buffer"@)
    } else if !state.supports_upload(id) {
        Err(no_native_upload())
    } else {
        match state.owner(id) {
            Some((conn, raw_id)) => if is_valid_attachment(filename, mime, bytes) {
                Ok((conn, raw_id, upload_commands(upload_id, filename, mime, bytes)))
            } else {
                Err("Matrix attachment metadata or size is invalid (maximum 10 MiB)"@)
            },
            None => Err("Matrix buffer has no authenticated relay connection"@),
        }
    }
}

impl WeeChatApp {
    pub fn is_matrix_buffer(&self, buffer_id: &str) -> (yes: bool)
        requires
            self.wf(),
        ensures
            yes == self@.is_matrix(buffer_id@),
    {
        match self.buffer_by_id(buffer_id) {
            Some(b) => same_text(b.plugin.as_str(), "matrix"),
            None => false,
        }
    }

    pub fn supports_matrix_upload(&self, buffer_id: &str) -> (yes: bool)
        requires
            self.wf(),
        ensures
            yes == self@.supports_upload(buffer_id@),
    {
        buffer_supports_matrix_upload(self.buffer_by_id(buffer_id))
    }

    pub fn begin_file_share_feedback(&mut self, buffer_id: &str, status: &str, ticks: u64)
        ensures
            final(self)@ == old(self)@.share_begun(buffer_id@, status@, ticks),
            old(self).wf() ==> final(self).wf(),
    {
        let ghost start = self@;
        self.file_share_uploading = true;
        self.file_share_target_buffer_id = Some(buffer_id.to_owned());
        self.file_share_expected_filename = None;
        self.file_share_started_at = Some(ticks);
        self.file_share_status = Some(status.to_owned());
        self.file_share_error = None;
        assert(self@.profiles == start.profiles);
    }

    pub fn finish_file_share_feedback(&mut self, status: Option<String>)
        ensures
            final(self)@ == old(self)@.share_finished(opt_text(status)),
            old(self).wf() ==> final(self).wf(),
    {
        let ghost start = self@;
        self.file_share_uploading = false;
        self.file_share_started_at = None;
        self.file_share_expected_filename = None;
        self.file_share_status = status;
        assert(self@.profiles == start.profiles);
    }

    pub fn set_file_share_error(&mut self, error: String)
        ensures
            final(self)@ == old(self)@.share_error(error@),
            old(self).wf() ==> final(self).wf(),
    {
        let ghost before = self@;
        self.file_share_error = Some(error);
        assert(self@.buffers == before.buffers);
    }

    /// Ends the waiting for an attachment once its own echo is seen.
    pub fn acknowledge_matrix_attachment(
        &mut self,
        buffer_id: &str,
        media: Option<&MatrixMedia>,
        is_self_msg: bool,
    )
        ensures
            final(self)@ == old(self)@.echo_seen(buffer_id@, media_name(media), is_self_msg),
            old(self).wf() ==> final(self).wf(),
    {
        let target = clone_opt(&self.file_share_target_buffer_id);
        let expected = clone_opt(&self.file_share_expected_filename);
        let matched = matrix_attachment_echo_matches(
            match &target {
                Some(t) => Some(t.as_str()),
                None => None,
            },
            match &expected {
                Some(t) => Some(t.as_str()),
                None => None,
            },
            buffer_id,
            media,
            is_self_msg,
        );
        if matched {
            let filename = match expected {
                Some(name) => name,
                None => "attachment".to_owned(),
            };
            self.file_share_error = None;
            self.finish_file_share_feedback(Some(join2("✓ Sent ", filename.as_str())));
        }
    }

    fn send_all(&mut self, conn: &str, raw_id: &str, commands: Vec<String>)
        ensures
            final(self)@ == old(self)@.sending_all(conn@, raw_id@, texts(commands@)),
            old(self).wf() ==> final(self).wf(),
    {
        let ghost list = texts(commands@);
        let ghost f = |text: Seq<char>| ActionView::SendMessage { conn: conn@, raw_id: raw_id@, text };
        let ghost start = self@;
        let mut outbox: Vec<Action> = Vec::new();
        core::mem::swap(&mut outbox, &mut self.outbox);
        let mut i: usize = 0;
        assert(views(outbox@) =~= start.outbox + list.take(0).map_values(f));
        while i < commands.len()
            invariant
                i <= commands@.len(),
                list == texts(commands@),
                f == (|text: Seq<char>|
                    ActionView::SendMessage { conn: conn@, raw_id: raw_id@, text }),
                views(outbox@) == start.outbox + list.take(i as int).map_values(f),
            decreases commands@.len() - i,
        {
            let ghost before = outbox@;
            assert(list[i as int] == commands@[i as int]@);
            outbox.push(
                Action::SendMessage {
                    conn: conn.to_owned(),
                    raw_id: raw_id.to_owned(),
                    text: commands[i].clone(),
                },
            );
            assert(views(outbox@) =~= views(before).push(f(list[i as int])));
            assert(views(outbox@) =~= start.outbox + list.take(i + 1).map_values(f));
            i = i + 1;
        }
        assert(list.take(i as int) =~= list);
        self.outbox = outbox;
    }

    /// Sends an attachment through the relay under an upload id.
    pub fn send_matrix_attachment(
        &mut self,
        buffer_id: &str,
        upload_id: String,
        filename: &str,
        mime: &str,
        bytes: &[u8],
    ) -> (result: Result<(), String>)
        requires
            old(self).wf(),
        ensures
            final(self).wf(),
            match attachment_plan(
                old(self)@,
                buffer_id@,
                upload_id@,
                filename@,
                mime@,
                bytes@,
            ) {
                Ok((conn, raw_id, commands)) => result is Ok && final(self)@
                    == old(self)@.sending_all(conn, raw_id, commands),
                Err(error) => result is Err && (result->Err_0)@ == error && final(self)@
                    == old(self)@,
            },
    {
        if !self.is_matrix_buffer(buffer_id) {
            return Err("Attachment target is not a Matrix buffer".to_owned());
        }
        if !self.supports_matrix_upload(buffer_id) {
            return Err(
                "Cannot send this attachment: the Matrix backend does not support native uploads. Update or restart the Matrix plugin.".to_owned(),
            );
        }
        match self.client_for_buffer(buffer_id) {
            Some((conn, raw_id)) => match matrix_attachment_upload(upload_id, filename, mime, bytes) {
                Ok(commands) => {
                    self.send_all(conn.as_str(), raw_id.as_str(), commands);
                    Ok(())
                },
                Err(error) => Err(error),
            },
            None => Err("Matrix buffer has no authenticated relay connection".to_owned()),
        }
    }
}

// ---------------------------------------------------------------------------
// Choosing a file
// ---------------------------------------------------------------------------

/// Why an image cannot be pasted into a buffer now.
pub open spec fn paste_refusal(state: AppView, id: Seq<char>) -> Option<Seq<char>> {
    if state.file_share_uploading {
        Some("Cannot paste while another attachment is being prepared or uploaded"@)
    } else if !state.is_matrix(id) {
        Some(
            "Cannot paste an image here: native clipboard image upload is available in Matrix chats"@,
        )
    } else if !state.supports_upload(id) {
        Some(
            "Cannot paste this image: the Matrix backend does not support native uploads. Update or restart the Matrix plugin."@,
        )
    } else {
        None
    }
}

/// What was found in the clipboard.
#[derive(Debug)]
pub enum ClipboardRead {
    Image(Vec<u8>),
    /// Something else than an image.
    NoImage,
    Failed(String),
}

/// The file that a clipboard image makes.
pub open spec fn clipboard_share(id: Seq<char>, read: ClipboardRead) -> Result<PreparedView, Seq<char>> {
    match read {
        ClipboardRead::Image(bytes) => if bytes@.len() <= MATRIX_UPLOAD_MAX_BYTES {
            Ok(
                PreparedView::MatrixAttachment {
                    buffer_id: id,
                    filename: "clipboard.png"@,
                    mime: "image/png"@,
                    bytes: bytes@,
                },
            )
        } else {
            Err("Matrix clipboard images may not exceed 10 MiB"@)
        },
        ClipboardRead::NoImage => Err(
            "Cannot paste: clipboard text was not accepted by the input field"@,
        ),
        ClipboardRead::Failed(error) => Err(error@),
    }
}

/// The file that a clipboard image makes.
pub fn prepare_clipboard_image(buffer_id: String, read: ClipboardRead) -> (result: Result<
    PreparedFileShare,
    String,
>)
    ensures
        crate::uploads::prepared_view(result) == clipboard_share(buffer_id@, read),
{
    match read {
        ClipboardRead::Image(bytes) => {
            if bytes.len() <= MATRIX_UPLOAD_MAX_BYTES {
                Ok(
                    PreparedFileShare::MatrixAttachment {
                        buffer_id,
                        filename: "clipboard.png".to_owned(),
                        mime: "image/png".to_owned(),
                        bytes,
                    },
                )
            } else {
                Err("Matrix clipboard images may not exceed 10 MiB".to_owned())
            }
        },
        ClipboardRead::NoImage => Err(
            "Cannot paste: clipboard text was not accepted by the input field".to_owned(),
        ),
        ClipboardRead::Failed(error) => Err(error),
    }
}

impl WeeChatApp {
    fn paste_refusal_of(&self, buffer_id: &str) -> (refusal: Option<String>)
        requires
            self.wf(),
        ensures
            opt_text(refusal) == paste_refusal(self@, buffer_id@),
    {
        if self.file_share_uploading {
            Some("Cannot paste while another attachment is being prepared or uploaded".to_owned())
        } else if !self.is_matrix_buffer(buffer_id) {
            Some(
                "Cannot paste an image here: native clipboard image upload is available in Matrix chats".to_owned(),
            )
        } else if !self.supports_matrix_upload(buffer_id) {
            Some(
                "Cannot paste this image: the Matrix backend does not support native uploads. Update or restart the Matrix plugin.".to_owned(),
            )
        } else {
            None
        }
    }

    /// Begins to paste an image, unless it cannot be.
    pub fn start_matrix_clipboard_upload(&mut self, buffer_id: &str, clock: &Clock) -> (begun: bool)
        requires
            old(self).wf(),
        ensures
            final(self).wf(),
            begun == (paste_refusal(old(self)@, buffer_id@) is None),
            final(self)@ == (match paste_refusal(old(self)@, buffer_id@) {
                Some(refusal) => old(self)@.share_error(refusal),
                None => old(self)@.share_begun(
                    buffer_id@,
                    "Reading clipboard image…"@,
                    clock.ticks,
                ),
            }),
    {
        match self.paste_refusal_of(buffer_id) {
            Some(refusal) => {
                self.set_file_share_error(refusal);
                false
            },
            None => {
                self.begin_file_share_feedback(buffer_id, "Reading clipboard image…", clock.ticks);
                true
            },
        }
    }

    /// Begins to send a file with the words that tell of it, unless another one
    /// is on its way. The answer says whether the file becomes an attachment of
    /// a Matrix message.
    fn start_file(&mut self, buffer_id: &str, status: &str, clock: &Clock) -> (begun: Option<bool>)
        requires
            old(self).wf(),
        ensures
            final(self).wf(),
            begun == (if old(self)@.file_share_uploading {
                None
            } else {
                Some(old(self)@.is_matrix(buffer_id@))
            }),
            final(self)@ == (if old(self)@.file_share_uploading {
                old(self)@.share_error("Another attachment is still being prepared or uploaded"@)
            } else {
                old(self)@.share_begun(buffer_id@, status@, clock.ticks)
            }),
    {
        if self.file_share_uploading {
            self.set_file_share_error(
                "Another attachment is still being prepared or uploaded".to_owned(),
            );
            return None;
        }
        let is_matrix = self.is_matrix_buffer(buffer_id);
        self.begin_file_share_feedback(buffer_id, status, clock.ticks);
        Some(is_matrix)
    }

    /// Begins to choose a file.
    pub fn start_file_picker(&mut self, buffer_id: &str, clock: &Clock) -> (begun: Option<bool>)
        requires
            old(self).wf(),
        ensures
            final(self).wf(),
            begun == (if old(self)@.file_share_uploading {
                None
            } else {
                Some(old(self)@.is_matrix(buffer_id@))
            }),
            final(self)@ == (if old(self)@.file_share_uploading {
                old(self)@.share_error("Another attachment is still being prepared or uploaded"@)
            } else {
                old(self)@.share_begun(buffer_id@, "Choose an attachment…"@, clock.ticks)
            }),
    {
        self.start_file(buffer_id, "Choose an attachment…", clock)
    }

    /// Begins to send a file that is known already.
    pub fn start_file_path(&mut self, buffer_id: &str, clock: &Clock) -> (begun: Option<bool>)
        requires
            old(self).wf(),
        ensures
            final(self).wf(),
            begun == (if old(self)@.file_share_uploading {
                None
            } else {
                Some(old(self)@.is_matrix(buffer_id@))
            }),
            final(self)@ == (if old(self)@.file_share_uploading {
                old(self)@.share_error("Another attachment is still being prepared or uploaded"@)
            } else {
                old(self)@.share_begun(buffer_id@, "Preparing attachment…"@, clock.ticks)
            }),
    {
        self.start_file(buffer_id, "Preparing attachment…", clock)
    }

    /// The buffer that a dropped file goes to: the open thread where it is
    /// dropped there, and otherwise the buffer on view.
    pub fn drop_target(&self, over_thread_panel: bool) -> (target: Option<String>)
        ensures
            opt_text(target) == (if over_thread_panel && self@.open_thread_buffer_id is Some {
                self@.open_thread_buffer_id
            } else {
                self@.selected_buffer_id
            }),
    {
        if over_thread_panel && self.open_thread_buffer_id.is_some() {
            clone_opt(&self.open_thread_buffer_id)
        } else {
            clone_opt(&self.selected_buffer_id)
        }
    }
}

// ---------------------------------------------------------------------------
// What comes of a file
// ---------------------------------------------------------------------------

impl AppView {
    /// The state with an attachment on its way under its name.
    pub open spec fn attachment_noted(self, id: Seq<char>, filename: Seq<char>, ticks: u64) -> AppView {
        AppView {
            file_share_target_buffer_id: Some(id),
            file_share_expected_filename: Some(filename),
            file_share_started_at: Some(ticks),
            file_share_status: Some("Uploading "@ + filename + "… do not paste it again"@),
            ..self
        }
    }

    /// The state after an attachment was ready to be sent.
    pub open spec fn attachment_ready(
        self,
        id: Seq<char>,
        upload_id: Seq<char>,
        filename: Seq<char>,
        mime: Seq<char>,
        bytes: Seq<u8>,
        ticks: u64,
    ) -> AppView {
        let noted = self.attachment_noted(id, filename, ticks);
        match attachment_plan(noted, id, upload_id, filename, mime, bytes) {
            Ok((conn, raw_id, commands)) => noted.sending_all(conn, raw_id, commands),
            Err(error) => noted.share_finished(None).share_error(error),
        }
    }

    /// The state after a file was uploaded elsewhere and its address is known.
    pub open spec fn link_ready(self, id: Seq<char>, url: Seq<char>) -> AppView {
        match self.owner(id) {
            Some((conn, raw_id)) => self.doing(
                ActionView::SendMessage { conn, raw_id, text: url },
            ).share_finished(Some("✓ File link sent"@)),
            None => self.share_finished(None).share_error(
                "File link target has no relay connection"@,
            ),
        }
    }

    /// The state after a file could not be prepared. Without words, the user
    /// chose none.
    pub open spec fn share_failed(self, error: Seq<char>) -> AppView {
        if error.len() > 0 {
            self.share_finished(None).share_error(error)
        } else {
            AppView { file_share_target_buffer_id: None, ..self.share_finished(None) }
        }
    }

    pub open spec fn share_arrived(
        self,
        result: Result<PreparedView, Seq<char>>,
        upload_id: Seq<char>,
        ticks: u64,
    ) -> AppView {
        match result {
            Ok(PreparedView::MatrixAttachment { buffer_id, filename, mime, bytes }) =>
                self.attachment_ready(buffer_id, upload_id, filename, mime, bytes, ticks),
            Ok(PreparedView::ExternalLink { buffer_id, url }) => self.link_ready(buffer_id, url),
            Err(error) => self.share_failed(error),
        }
    }

    /// Whether an attachment has been waiting too long to be seen in the chat.
    pub open spec fn share_overdue(self, ticks: u64) -> bool {
        self.file_share_uploading && self.file_share_started_at is Some && ticks
            - self.file_share_started_at->0 >= MATRIX_UPLOAD_CONFIRMATION_TIMEOUT
    }
}

impl WeeChatApp {
    fn note_attachment(&mut self, buffer_id: &str, filename: &str, ticks: u64)
        ensures
            final(self)@ == old(self)@.attachment_noted(buffer_id@, filename@, ticks),
            old(self).wf() ==> final(self).wf(),
    {
        let ghost start = self@;
        self.file_share_target_buffer_id = Some(buffer_id.to_owned());
        self.file_share_expected_filename = Some(filename.to_owned());
        self.file_share_started_at = Some(ticks);
        self.file_share_status = Some(join3("Uploading ", filename, "… do not paste it again"));
        assert(self@.profiles == start.profiles);
    }

    fn share_attachment(
        &mut self,
        buffer_id: &str,
        upload_id: String,
        filename: &str,
        mime: &str,
        bytes: &[u8],
        ticks: u64,
    )
        requires
            old(self).wf(),
        ensures
            final(self).wf(),
            final(self)@ == old(self)@.attachment_ready(
                buffer_id@,
                upload_id@,
                filename@,
                mime@,
                bytes@,
                ticks,
            ),
    {
        self.note_attachment(buffer_id, filename, ticks);
        match self.send_matrix_attachment(buffer_id, upload_id, filename, mime, bytes) {
            Ok(()) => {},
            Err(error) => {
                self.finish_file_share_feedback(None);
                self.set_file_share_error(error);
            },
        }
    }

    fn share_link(&mut self, buffer_id: &str, url: String)
        requires
            old(self).wf(),
        ensures
            final(self).wf(),
            final(self)@ == old(self)@.link_ready(buffer_id@, url@),
    {
        match self.client_for_buffer(buffer_id) {
            Some((conn, raw_id)) => {
                self.act(Action::SendMessage { conn, raw_id, text: url });
                self.finish_file_share_feedback(Some("✓ File link sent".to_owned()));
            },
            None => {
                self.finish_file_share_feedback(None);
                self.set_file_share_error("File link target has no relay connection".to_owned());
            },
        }
    }

    fn fail_share(&mut self, error: String)
        requires
            old(self).wf(),
        ensures
            final(self).wf(),
            final(self)@ == old(self)@.share_failed(error@),
    {
        let ghost start = self@;
        self.finish_file_share_feedback(None);
        if error.as_str().is_empty() {
            self.file_share_target_buffer_id = None;
        } else {
            self.set_file_share_error(error);
        }
        assert(self@.profiles == start.profiles);
    }

    /// Takes in a file that was prepared, or that was not. A Matrix attachment
    /// stays in Matrix; elsewhere the address of the uploaded file is sent.
    pub fn file_share_arrived(
        &mut self,
        result: Result<PreparedFileShare, String>,
        upload_id: String,
        clock: &Clock,
    )
        requires
            old(self).wf(),
        ensures
            final(self).wf(),
            final(self)@ == old(self)@.share_arrived(
                crate::uploads::prepared_view(result),
                upload_id@,
                clock.ticks,
            ),
    {
        match result {
            Ok(PreparedFileShare::MatrixAttachment { buffer_id, filename, mime, bytes }) => {
                self.share_attachment(
                    buffer_id.as_str(),
                    upload_id,
                    filename.as_str(),
                    mime.as_str(),
                    bytes.as_slice(),
                    clock.ticks,
                );
            },
            Ok(PreparedFileShare::ExternalLink { buffer_id, url }) => {
                self.share_link(buffer_id.as_str(), url);
            },
            Err(error) => {
                self.fail_share(error);
            },
        }
    }

    /// Gives up waiting for an attachment that was not seen in the chat.
    pub fn check_file_share_timeout(&mut self, clock: &Clock)
        ensures
            final(self)@ == (if old(self)@.share_overdue(clock.ticks) {
                old(self)@.share_finished(None).share_error(
                    "No Matrix upload confirmation arrived. Check the chat before trying again."@,
                )
            } else {
                old(self)@
            }),
            old(self).wf() ==> final(self).wf(),
    {
        let overdue: bool = self.file_share_uploading && match self.file_share_started_at {
            Some(started) => clock.ticks >= started && clock.ticks - started
                >= MATRIX_UPLOAD_CONFIRMATION_TIMEOUT,
            None => false,
        };
        if overdue {
            self.finish_file_share_feedback(None);
            self.set_file_share_error(
                "No Matrix upload confirmation arrived. Check the chat before trying again.".to_owned(),
            );
        }
    }
}

/// An attachment stays on its way until its own echo is seen: a line of another
/// buffer, of another user or with another file changes nothing.
pub proof fn attachment_waits_for_its_own_echo(
    state: AppView,
    id: Seq<char>,
    media: Option<Seq<char>>,
    is_self_msg: bool,
)
    requires
        !is_self_msg || state.file_share_target_buffer_id != Some(id) || media is None
            || state.file_share_expected_filename != media,
    ensures
        state.echo_seen(id, media, is_self_msg) == state,
{
}

/// While one file is on its way no other one begins, and the first goes on as
/// it was.
pub proof fn one_file_at_a_time(state: AppView, id: Seq<char>)
    requires
        state.file_share_uploading,
    ensures
        paste_refusal(state, id) is Some,
        forall|error: Seq<char>|
            (#[trigger] state.share_error(error)).file_share_target_buffer_id
                == state.file_share_target_buffer_id && state.share_error(
                error,
            ).file_share_expected_filename == state.file_share_expected_filename
                && state.share_error(error).outbox == state.outbox,
{
}

// ---------------------------------------------------------------------------
// Deleting a message
// ---------------------------------------------------------------------------

/// What comes of asking to delete a message: where the request goes, or why it
/// cannot be made.
pub open spec fn redaction_plan(state: AppView, id: Seq<char>, event_id: Seq<char>) -> Result<
    (Seq<char>, Seq<char>),
    Seq<char>,
> {
    if !state.is_matrix(id) {
        Err("Deletion is available only for Matrix messages"@)
    } else if !is_command_event_id(event_id) {
        Err("This line has no valid Matrix event ID"@)
    } else {
        match state.owner(id) {
            Some(owner) => Ok(owner),
            None => Err("Matrix buffer has no authenticated relay connection"@),
        }
    }
}

impl AppView {
    pub open spec fn redacting(self, id: Seq<char>, event_id: Seq<char>) -> AppView {
        match redaction_plan(self, id, event_id) {
            Ok((conn, raw_id)) => self.doing(
                ActionView::SendMessage { conn, raw_id, text: "/redact "@ + event_id },
            ),
            Err(_) => self,
        }
    }

    /// The state after the user agreed to delete the chosen message.
    pub open spec fn redaction_confirmed(self) -> AppView {
        match self.pending_redaction {
            Some(target) => match redaction_plan(self, target.buffer_id, target.matrix_event_id) {
                Ok(_) => AppView {
                    pending_redaction: None,
                    pending_redaction_error: None,
                    ..self.redacting(target.buffer_id, target.matrix_event_id)
                },
                Err(error) => AppView { pending_redaction_error: Some(error), ..self },
            },
            None => self,
        }
    }
}

impl WeeChatApp {
    /// Has the relay delete a message.
    pub fn send_matrix_redaction(&mut self, buffer_id: &str, event_id: &str) -> (result: Result<
        (),
        String,
    >)
        requires
            old(self).wf(),
        ensures
            final(self).wf(),
            final(self)@ == old(self)@.redacting(buffer_id@, event_id@),
            match redaction_plan(old(self)@, buffer_id@, event_id@) {
                Ok(_) => result is Ok,
                Err(error) => result is Err && (result->Err_0)@ == error,
            },
    {
        if !self.is_matrix_buffer(buffer_id) {
            return Err("Deletion is available only for Matrix messages".to_owned());
        }
        let command = match matrix_redact_command(event_id) {
            Ok(command) => command,
            Err(error) => {
                return Err(error);
            },
        };
        match self.client_for_buffer(buffer_id) {
            Some((conn, raw_id)) => {
                self.act(Action::SendMessage { conn, raw_id, text: command });
                Ok(())
            },
            None => Err("Matrix buffer has no authenticated relay connection".to_owned()),
        }
    }

    /// Deletes the chosen message once the user agreed.
    pub fn confirm_redaction(&mut self)
        requires
            old(self).wf(),
        ensures
            final(self).wf(),
            final(self)@ == old(self)@.redaction_confirmed(),
    {
        let target = match &self.pending_redaction {
            Some(target) => target.clone(),
            None => {
                return ;
            },
        };
        match self.send_matrix_redaction(
            target.buffer_id.as_str(),
            target.matrix_event_id.as_str(),
        ) {
            Ok(()) => {
                self.pending_redaction = None;
                self.pending_redaction_error = None;
            },
            Err(error) => {
                self.pending_redaction_error = Some(error);
            },
        }
    }

    /// Leaves the chosen message alone.
    pub fn cancel_redaction(&mut self)
        ensures
            final(self)@ == (AppView {
                pending_redaction: None,
                pending_redaction_error: None,
                ..old(self)@
            }),
            old(self).wf() ==> final(self).wf(),
    {
        let ghost start = self@;
        self.pending_redaction = None;
        self.pending_redaction_error = None;
        assert(self@.profiles == start.profiles);
    }
}

/// A deletion names exactly the event that was chosen, or nothing is sent.
pub proof fn deletion_names_an_exact_event(state: AppView, id: Seq<char>, event_id: Seq<char>)
    ensures
        state.redacting(id, event_id).outbox.len() > state.outbox.len() ==> is_command_event_id(
            event_id,
        ) && state.redacting(id, event_id).outbox.last() == (ActionView::SendMessage {
            conn: (state.owner(id)->0).0,
            raw_id: (state.owner(id)->0).1,
            text: "/redact "@ + event_id,
        }),
        state.redacting(id, event_id).outbox.len() == state.outbox.len() ==> state.redacting(
            id,
            event_id,
        ) == state,
{
}

} // verus!
