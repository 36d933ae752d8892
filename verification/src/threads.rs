//! Threads, replies and the blocks that their lines form.
use vstd::prelude::*;
use std::collections::VecDeque;
use crate::collections::TextMap;
use crate::models::{
    copy_lines, opt_view, Buffer, BufferView, Line, LineView, MatrixMedia, MatrixReplyContext,
    MatrixReplyLineKind, MediaView, ReplyView,
};
use crate::rooms::{connection_prefix, connection_prefix_of, on_connection};
use crate::seqs::{first_index, position_from, views};
use crate::text::{
    chars_of, clone_opt, clone_texts, join2, opt_is, opt_text, same_opt, same_text,
    str_strip_prefix, str_trim, str_trim_start, strip_prefix, text_between, texts, trim,
    trim_start,
};
use crate::time::Timestamp;

verus! {

// ---------------------------------------------------------------------------
// Replies
// ---------------------------------------------------------------------------

/// What an event answers.
#[derive(Debug)]
pub struct ThreadReplyContext {
    pub target_event_id: Option<String>,
    pub sender: Option<String>,
    pub quotes: Vec<String>,
    pub has_header: bool,
}

pub ghost struct ContextView {
    pub target_event_id: Option<Seq<char>>,
    pub sender: Option<Seq<char>>,
    pub quotes: Seq<Seq<char>>,
    pub has_header: bool,
}

impl View for ThreadReplyContext {
    type V = ContextView;

    open spec fn view(&self) -> ContextView {
        ContextView {
            target_event_id: opt_text(self.target_event_id),
            sender: opt_text(self.sender),
            quotes: texts(self.quotes@),
            has_header: self.has_header,
        }
    }
}

impl Clone for ThreadReplyContext {
    fn clone(&self) -> (copy: Self)
        ensures
            copy@ == self@,
    {
        ThreadReplyContext {
            target_event_id: clone_opt(&self.target_event_id),
            sender: clone_opt(&self.sender),
            quotes: clone_texts(&self.quotes),
            has_header: self.has_header,
        }
    }
}

/// The text that a quote line quotes: without the quote mark, and without the
/// sender where the line repeats it.
pub open spec fn quote_text(message: Seq<char>, prefix: Seq<char>) -> Seq<char> {
    let quote = trim_start(
        match strip_prefix(message, "> "@) {
            Some(rest) => rest,
            None => message,
        },
    );
    let own_sender = trim(prefix);
    if own_sender.len() == 0 {
        quote
    } else {
        match strip_prefix(quote, own_sender) {
            Some(body) => match strip_prefix(body, ":"@) {
                Some(text) => trim_start(text),
                None => quote,
            },
            None => quote,
        }
    }
}

pub fn reply_quote_text(line: &Line) -> (quote: String)
    ensures
        quote@ == quote_text(line@.plain_message, line@.plain_prefix),
{
    let rest = match str_strip_prefix(line.plain_message.as_str(), "> ") {
        Some(rest) => rest,
        None => line.plain_message.clone(),
    };
    let quote = str_trim_start(rest.as_str());
    let own_sender = str_trim(line.plain_prefix.as_str());
    if own_sender.as_str().is_empty() {
        return quote;
    }
    match str_strip_prefix(quote.as_str(), own_sender.as_str()) {
        Some(body) => match str_strip_prefix(body.as_str(), ":") {
            Some(text) => str_trim_start(text.as_str()),
            None => quote,
        },
        None => quote,
    }
}

/// The context that a line begins.
pub open spec fn fresh_context(reply: ReplyView) -> ContextView {
    ContextView {
        target_event_id: reply.event_id,
        sender: reply.sender,
        quotes: Seq::empty(),
        has_header: false,
    }
}

/// The first of two texts that may be absent.
pub open spec fn or_text(a: Option<Seq<char>>, b: Option<Seq<char>>) -> Option<Seq<char>> {
    if a is None {
        b
    } else {
        a
    }
}

/// A context with one more line of its event.
pub open spec fn context_with(context: ContextView, line: LineView, reply: ReplyView) -> ContextView {
    ContextView {
        target_event_id: or_text(context.target_event_id, reply.event_id),
        sender: or_text(context.sender, reply.sender),
        quotes: match reply.kind {
            MatrixReplyLineKind::Header => context.quotes,
            MatrixReplyLineKind::Quote => context.quotes.push(
                quote_text(line.plain_message, line.plain_prefix),
            ),
        },
        has_header: context.has_header || reply.kind is Header,
    }
}

/// The contexts after one more line.
pub open spec fn contexts_with(
    contexts: Map<Seq<char>, ContextView>,
    line: LineView,
) -> Map<Seq<char>, ContextView> {
    match (line.matrix_event_id, line.matrix_reply) {
        (Some(event_id), Some(reply)) => contexts.insert(
            event_id,
            context_with(
                if contexts.contains_key(event_id) {
                    contexts[event_id]
                } else {
                    fresh_context(reply)
                },
                line,
                reply,
            ),
        ),
        _ => contexts,
    }
}

/// What the events among the lines answer.
pub open spec fn reply_contexts(lines: Seq<LineView>) -> Map<Seq<char>, ContextView>
    decreases lines.len(),
{
    if lines.len() == 0 {
        Map::empty()
    } else {
        contexts_with(reply_contexts(lines.drop_last()), lines.last())
    }
}

fn start_context(reply: &MatrixReplyContext) -> (context: ThreadReplyContext)
    ensures
        context@ == fresh_context(reply@),
{
    let quotes: Vec<String> = Vec::new();
    assert(texts(quotes@) =~= Seq::empty());
    ThreadReplyContext {
        target_event_id: clone_opt(&reply.event_id),
        sender: clone_opt(&reply.sender),
        quotes,
        has_header: false,
    }
}

fn extend_context(context: ThreadReplyContext, line: &Line, reply: &MatrixReplyContext) -> (next:
    ThreadReplyContext)
    ensures
        next@ == context_with(context@, line@, reply@),
{
    let mut next = context;
    if next.target_event_id.is_none() {
        next.target_event_id = clone_opt(&reply.event_id);
    }
    if next.sender.is_none() {
        next.sender = clone_opt(&reply.sender);
    }
    match reply.kind {
        MatrixReplyLineKind::Header => {
            next.has_header = true;
        },
        MatrixReplyLineKind::Quote => {
            let ghost before = next.quotes@;
            next.quotes.push(reply_quote_text(line));
            assert(texts(next.quotes@) =~= texts(before).push(
                quote_text(line@.plain_message, line@.plain_prefix),
            ));
        },
    }
    next
}

/// What the events among the lines answer, by event id.
pub fn reply_contexts_by_event(lines: &VecDeque<Line>) -> (contexts: TextMap<ThreadReplyContext>)
    ensures
        contexts@ == reply_contexts(views(lines@)),
{
    let ghost all = views(lines@);
    let mut contexts: TextMap<ThreadReplyContext> = TextMap::new();
    let mut i: usize = 0;
    assert(contexts@ =~= reply_contexts(all.take(0)));
    while i < lines.len()
        invariant
            i <= lines@.len(),
            all == views(lines@),
            contexts@ == reply_contexts(all.take(i as int)),
        decreases lines@.len() - i,
    {
        let line = &lines[i];
        assert(all[i as int] == line@);
        assert(all.take(i + 1).drop_last() =~= all.take(i as int));
        match (&line.matrix_event_id, &line.matrix_reply) {
            (Some(event_id), Some(reply)) => {
                let context = match contexts.get(event_id.as_str()) {
                    Some(known) => known.clone(),
                    None => start_context(reply),
                };
                let next = extend_context(context, line, reply);
                contexts.insert(event_id.clone(), next);
            },
            _ => {},
        }
        i = i + 1;
    }
    assert(all.take(i as int) =~= all);
    contexts
}

/// Whether a line of the event is shown that is no reply line.
pub open spec fn body_is_visible(lines: Seq<LineView>, event_id: Seq<char>) -> bool {
    exists|i: int| 0 <= i < lines.len() && is_visible_body(#[trigger] lines[i], event_id)
}

pub open spec fn is_visible_body(line: LineView, event_id: Seq<char>) -> bool {
    line.displayed && line.matrix_event_id == Some(event_id) && line.matrix_reply is None
}

pub fn matrix_event_has_visible_body_line(lines: &VecDeque<Line>, event_id: &str) -> (yes: bool)
    ensures
        yes == body_is_visible(views(lines@), event_id@),
{
    let mut i: usize = 0;
    while i < lines.len()
        invariant
            i <= lines@.len(),
            forall|j: int|
                0 <= j < i ==> !is_visible_body(#[trigger] views(lines@)[j], event_id@),
        decreases lines@.len() - i,
    {
        assert(views(lines@)[i as int] == lines@[i as int]@);
        if lines[i].displayed && opt_is(&lines[i].matrix_event_id, event_id)
            && lines[i].matrix_reply.is_none() {
            assert(is_visible_body(views(lines@)[i as int], event_id@));
            return true;
        }
        i = i + 1;
    }
    false
}

/// Whether a line is a reply header whose event shows its body anyway.
pub open spec fn is_redundant_header(lines: Seq<LineView>, line: LineView) -> bool {
    line.matrix_reply is Some && line.matrix_reply->0.kind is Header && line.matrix_event_id is Some
        && body_is_visible(lines, line.matrix_event_id->0)
}

pub fn redundant_room_reply_header(lines: &VecDeque<Line>, line: &Line) -> (yes: bool)
    ensures
        yes == is_redundant_header(views(lines@), line@),
{
    match (&line.matrix_reply, &line.matrix_event_id) {
        (Some(reply), Some(event_id)) => match reply.kind {
            MatrixReplyLineKind::Header => matrix_event_has_visible_body_line(
                lines,
                event_id.as_str(),
            ),
            MatrixReplyLineKind::Quote => false,
        },
        _ => false,
    }
}

/// What a body line answers.
pub open spec fn body_context(line: LineView, contexts: Map<Seq<char>, ContextView>) -> Option<
    ContextView,
> {
    if line.matrix_reply is None && line.matrix_event_id is Some && contexts.contains_key(
        line.matrix_event_id->0,
    ) {
        Some(contexts[line.matrix_event_id->0])
    } else {
        None
    }
}

pub fn room_reply_context_for_body_line<'a>(
    line: &Line,
    reply_contexts: &'a TextMap<ThreadReplyContext>,
) -> (context: Option<&'a ThreadReplyContext>)
    ensures
        match context {
            Some(c) => body_context(line@, reply_contexts@) == Some(c@),
            None => body_context(line@, reply_contexts@) is None,
        },
{
    if line.matrix_reply.is_some() {
        return None;
    }
    match &line.matrix_event_id {
        Some(event_id) => reply_contexts.get(event_id.as_str()),
        None => None,
    }
}

/// How many characters of an event id are shown.
pub const SHORT_EVENT_ID_CHARS: usize = 18;

pub open spec fn short_event_id(event_id: Seq<char>) -> Seq<char> {
    if event_id.len() > SHORT_EVENT_ID_CHARS {
        event_id.take(SHORT_EVENT_ID_CHARS as int) + "..."@
    } else {
        event_id
    }
}

pub fn short_matrix_event_id(event_id: &str) -> (short: String)
    ensures
        short@ == short_event_id(event_id@),
{
    let chars = chars_of(event_id);
    if chars.len() > SHORT_EVENT_ID_CHARS {
        let head = text_between(chars.as_slice(), 0, SHORT_EVENT_ID_CHARS);
        assert(head@ =~= event_id@.take(SHORT_EVENT_ID_CHARS as int));
        join2(head.as_str(), "...")
    } else {
        event_id.to_owned()
    }
}

// ---------------------------------------------------------------------------
// Blocks
// ---------------------------------------------------------------------------

#[derive(Debug)]
pub struct ThreadMessageContent {
    pub message: String,
    pub media: Option<MatrixMedia>,
}

pub ghost struct ContentView {
    pub message: Seq<char>,
    pub media: Option<MediaView>,
}

impl View for ThreadMessageContent {
    type V = ContentView;

    open spec fn view(&self) -> ContentView {
        ContentView { message: self.message@, media: opt_view(self.media) }
    }
}

/// The lines of a thread that belong together.
#[derive(Debug)]
pub struct ThreadMessageBlock {
    pub timestamp: Timestamp,
    pub prefix: String,
    pub content: Vec<ThreadMessageContent>,
    pub matrix_event_id: Option<String>,
    pub reply: Option<ThreadReplyContext>,
}

pub ghost struct BlockView {
    pub timestamp: Timestamp,
    pub prefix: Seq<char>,
    pub content: Seq<ContentView>,
    pub matrix_event_id: Option<Seq<char>>,
    pub reply: Option<ContextView>,
}

impl View for ThreadMessageBlock {
    type V = BlockView;

    open spec fn view(&self) -> BlockView {
        BlockView {
            timestamp: self.timestamp,
            prefix: self.prefix@,
            content: views(self.content@),
            matrix_event_id: opt_text(self.matrix_event_id),
            reply: opt_view(self.reply),
        }
    }
}

/// A block with one more line: a header begins the reply anew, a quote joins
/// it, and every other line is content.
pub open spec fn block_with(block: BlockView, line: LineView) -> BlockView {
    match line.matrix_reply {
        Some(reply) => match reply.kind {
            MatrixReplyLineKind::Header => BlockView {
                reply: Some(ContextView { has_header: true, ..fresh_context(reply) }),
                ..block
            },
            MatrixReplyLineKind::Quote => {
                let context = match block.reply {
                    Some(context) => context,
                    None => fresh_context(reply),
                };
                BlockView {
                    reply: Some(
                        ContextView {
                            quotes: context.quotes.push(
                                quote_text(line.plain_message, line.plain_prefix),
                            ),
                            ..context
                        },
                    ),
                    ..block
                }
            },
        },
        None => BlockView {
            content: block.content.push(
                ContentView { message: line.message, media: line.matrix_media },
            ),
            ..block
        },
    }
}

pub fn append_thread_line(block: &mut ThreadMessageBlock, line: &Line)
    ensures
        final(block)@ == block_with(old(block)@, line@),
{
    match &line.matrix_reply {
        Some(reply) => match reply.kind {
            MatrixReplyLineKind::Header => {
                let mut context = start_context(reply);
                context.has_header = true;
                block.reply = Some(context);
            },
            MatrixReplyLineKind::Quote => {
                let mut context = match block.reply.take() {
                    Some(context) => context,
                    None => start_context(reply),
                };
                let ghost before = context.quotes@;
                context.quotes.push(reply_quote_text(line));
                assert(texts(context.quotes@) =~= texts(before).push(
                    quote_text(line@.plain_message, line@.plain_prefix),
                ));
                block.reply = Some(context);
            },
        },
        None => {
            let ghost before = block.content@;
            let media = match &line.matrix_media {
                Some(media) => Some(media.clone()),
                None => None,
            };
            block.content.push(ThreadMessageContent { message: line.message.clone(), media });
            assert(views(block.content@) =~= views(before).push(
                ContentView { message: line@.message, media: line@.matrix_media },
            ));
        },
    }
}

/// Whether a line goes on with a block: it belongs to the same event, or it has
/// none and no sender of its own, or the sender and the time of the block.
pub open spec fn continues(block: BlockView, line: LineView) -> bool {
    if line.matrix_event_id is Some {
        block.matrix_event_id == line.matrix_event_id
    } else {
        line.prefix.len() == 0 || block.prefix == line.prefix && block.timestamp == line.timestamp
    }
}

pub open spec fn new_block(line: LineView) -> BlockView {
    BlockView {
        timestamp: line.timestamp,
        prefix: line.prefix,
        content: Seq::empty(),
        matrix_event_id: line.matrix_event_id,
        reply: None,
    }
}

/// The blocks after one more line.
pub open spec fn blocks_with(blocks: Seq<BlockView>, line: LineView) -> Seq<BlockView> {
    if !line.displayed {
        blocks
    } else if blocks.len() > 0 && continues(blocks.last(), line) {
        blocks.drop_last().push(block_with(blocks.last(), line))
    } else {
        blocks.push(block_with(new_block(line), line))
    }
}

/// The blocks that lines form.
pub open spec fn thread_blocks(lines: Seq<LineView>) -> Seq<BlockView>
    decreases lines.len(),
{
    if lines.len() == 0 {
        Seq::empty()
    } else {
        blocks_with(thread_blocks(lines.drop_last()), lines.last())
    }
}

fn does_continue(block: &ThreadMessageBlock, line: &Line) -> (yes: bool)
    ensures
        yes == continues(block@, line@),
{
    if line.matrix_event_id.is_some() {
        same_opt(&block.matrix_event_id, &line.matrix_event_id)
    } else {
        line.prefix.as_str().is_empty() || (same_text(block.prefix.as_str(), line.prefix.as_str())
            && block.timestamp == line.timestamp)
    }
}

/// The blocks that the visible lines of a thread form.
pub fn group_thread_lines(lines: &VecDeque<Line>) -> (blocks: Vec<ThreadMessageBlock>)
    ensures
        views(blocks@) == thread_blocks(views(lines@)),
{
    let ghost all = views(lines@);
    let mut blocks: Vec<ThreadMessageBlock> = Vec::new();
    let mut i: usize = 0;
    assert(views(blocks@) =~= thread_blocks(all.take(0)));
    while i < lines.len()
        invariant
            i <= lines@.len(),
            all == views(lines@),
            views(blocks@) == thread_blocks(all.take(i as int)),
        decreases lines@.len() - i,
    {
        let line = &lines[i];
        assert(all[i as int] == line@);
        assert(all.take(i + 1).drop_last() =~= all.take(i as int));
        let ghost before = blocks@;
        if line.displayed {
            let n: usize = blocks.len();
            assert(n > 0 ==> views(blocks@).last() == blocks@.last()@);
            if n > 0 && does_continue(&blocks[n - 1], line) {
                append_thread_line(&mut blocks[n - 1], line);
                assert(views(blocks@) =~= views(before).drop_last().push(
                    block_with(views(before).last(), line@),
                ));
            } else {
                let content: Vec<ThreadMessageContent> = Vec::new();
                assert(views(content@) =~= Seq::empty());
                let mut block = ThreadMessageBlock {
                    timestamp: line.timestamp,
                    prefix: line.prefix.clone(),
                    content,
                    matrix_event_id: clone_opt(&line.matrix_event_id),
                    reply: None,
                };
                append_thread_line(&mut block, line);
                blocks.push(block);
                assert(views(blocks@) =~= views(before).push(block_with(new_block(line@), line@)));
            }
        }
        i = i + 1;
    }
    assert(all.take(i as int) =~= all);
    blocks
}

/// How many content items the blocks hold.
pub open spec fn content_count(blocks: Seq<BlockView>) -> nat
    decreases blocks.len(),
{
    if blocks.len() == 0 {
        0
    } else {
        content_count(blocks.drop_last()) + blocks.last().content.len()
    }
}

/// The visible lines that are no reply lines.
pub open spec fn body_lines(lines: Seq<LineView>) -> nat {
    lines.filter(|l: LineView| l.displayed && l.matrix_reply is None).len()
}

/// Grouping loses no visible body line and shows none twice.
pub proof fn grouping_keeps_every_body_line(lines: Seq<LineView>)
    ensures
        content_count(thread_blocks(lines)) == body_lines(lines),
    decreases lines.len(),
{
    let p = |l: LineView| l.displayed && l.matrix_reply is None;
    if lines.len() == 0 {
        reveal(Seq::filter);
    } else {
        let front = lines.drop_last();
        let line = lines.last();
        grouping_keeps_every_body_line(front);
        crate::seqs::lemma_filter_push(front, line, p);
        assert(lines =~= front.push(line));
        let blocks = thread_blocks(front);
        if line.displayed {
            if blocks.len() > 0 && continues(blocks.last(), line) {
                let next = blocks.drop_last().push(block_with(blocks.last(), line));
                assert(next.drop_last() =~= blocks.drop_last());
            } else {
                let next = blocks.push(block_with(new_block(line), line));
                assert(next.drop_last() =~= blocks);
            }
        }
    }
}

// ---------------------------------------------------------------------------
// The open thread
// ---------------------------------------------------------------------------

/// The thread to show: the buffer as it is, or as it was last seen, and while
/// it is empty with the lines that it had.
pub open spec fn stable_snapshot(current: Option<BufferView>, previous: Option<BufferView>) -> Option<
    BufferView,
> {
    let snapshot = if current is Some {
        current
    } else {
        previous
    };
    match snapshot {
        Some(b) => if b.messages.len() == 0 && previous is Some && previous->0.messages.len() > 0 {
            Some(BufferView { messages: previous->0.messages, ..b })
        } else {
            Some(b)
        },
        None => None,
    }
}

pub open spec fn opt_ref_view(b: Option<&Buffer>) -> Option<BufferView> {
    match b {
        Some(b) => Some(b@),
        None => None,
    }
}

/// Keeps the last complete thread visible while its buffer is being refreshed.
pub fn stable_thread_snapshot(current: Option<&Buffer>, previous: Option<&Buffer>) -> (snapshot:
    Option<Buffer>)
    ensures
        opt_view(snapshot) == stable_snapshot(opt_ref_view(current), opt_ref_view(previous)),
{
    let mut snapshot = match (current, previous) {
        (Some(b), _) => b.clone(),
        (None, Some(b)) => b.clone(),
        (None, None) => {
            return None;
        },
    };
    assert(snapshot@.messages.len() == snapshot.messages@.len());
    if snapshot.messages.len() == 0 {
        match previous {
            Some(b) => {
                assert(b@.messages.len() == b.messages@.len());
                if b.messages.len() > 0 {
                    snapshot.messages = copy_lines(&b.messages);
                }
            },
            None => {},
        }
    }
    Some(snapshot)
}

/// A refresh never empties a thread that is shown.
pub proof fn refresh_never_empties_a_thread(current: Option<BufferView>, previous: BufferView)
    requires
        previous.messages.len() > 0,
    ensures
        stable_snapshot(current, Some(previous)) is Some,
        stable_snapshot(current, Some(previous))->0.messages.len() > 0,
{
}

/// Whether a buffer shows the thread of a snapshot.
pub open spec fn is_thread_of(b: BufferView, snapshot: BufferView) -> bool {
    b.is_thread() && b.matrix_room_id == snapshot.matrix_room_id && b.matrix_thread_root
        == snapshot.matrix_thread_root && on_connection(connection_prefix(snapshot.id), b.id)
}

/// The buffer that shows the open thread: the one that did, or the one with the
/// room and the root of the snapshot.
pub open spec fn live_thread(
    buffers: Seq<BufferView>,
    current_id: Option<Seq<char>>,
    snapshot: Option<BufferView>,
) -> Option<Seq<char>> {
    if current_id is Some && thread_exists(buffers, current_id->0) {
        current_id
    } else {
        match snapshot {
            Some(s) => if s.matrix_room_id is None || s.matrix_thread_root is None {
                None
            } else {
                match first_index(buffers, |b: BufferView| is_thread_of(b, s)) {
                    Some(i) => Some(buffers[i].id),
                    None => None,
                }
            },
            None => None,
        }
    }
}

pub open spec fn thread_exists(buffers: Seq<BufferView>, id: Seq<char>) -> bool {
    first_index(buffers, |b: BufferView| b.id == id && b.is_thread()) is Some
}

/// Relay ids of buffers do not survive a restart of the relay. An open thread
/// stays with its room and root.
pub fn live_thread_buffer_id(
    buffers: &Vec<Buffer>,
    current_id: Option<&str>,
    snapshot: Option<&Buffer>,
) -> (id: Option<String>)
    ensures
        opt_text(id) == live_thread(
            views(buffers@),
            crate::text::opt_str(current_id),
            opt_ref_view(snapshot),
        ),
{
    match current_id {
        Some(current) => {
            let found = |b: &Buffer| -> (r: bool)
                ensures
                    r == (b@.id == current@ && b@.is_thread()),
                { same_text(b.id.as_str(), current) && b.is_matrix_thread() };
            if position_from(
                buffers.as_slice(),
                0,
                found,
                Ghost(|b: BufferView| b.id == current@ && b.is_thread()),
            ).is_some() {
                return Some(current.to_owned());
            }
        },
        None => {},
    }
    match snapshot {
        Some(s) => {
            if s.matrix_room_id.is_none() || s.matrix_thread_root.is_none() {
                return None;
            }
            let prefix = connection_prefix_of(s.id.as_str());
            let prefix_ref = &prefix;
            let found = |b: &Buffer| -> (r: bool)
                ensures
                    r == (b@.is_thread() && b@.matrix_room_id == s@.matrix_room_id
                        && b@.matrix_thread_root == s@.matrix_thread_root && on_connection(
                        opt_text(*prefix_ref),
                        b@.id,
                    )),
                {
                    b.is_matrix_thread() && same_opt(&b.matrix_room_id, &s.matrix_room_id)
                        && same_opt(&b.matrix_thread_root, &s.matrix_thread_root) && (
                    prefix_ref.is_none() || same_opt(
                        &connection_prefix_of(b.id.as_str()),
                        prefix_ref,
                    ))
                };
            match position_from(
                buffers.as_slice(),
                0,
                found,
                Ghost(|b: BufferView| is_thread_of(b, s@)),
            ) {
                Some(i) => {
                    assert(views(buffers@)[i as int] == buffers@[i as int]@);
                    Some(buffers[i].id.clone())
                },
                None => None,
            }
        },
        None => None,
    }
}

} // verus!
