//! Images, their colours and their files; what is left on lists.
use vstd::prelude::*;
use crate::laws::given::{buffers_are_found_by_id, stands_at};
use crate::media::{
    avatar_color, avatar_part, clipboard_result, dimensions_verdict, middle_square, nick_color,
    square_part, square_source, word_hash, ImageState, MediaStateView, MediaStep, MediaWait,
};
use crate::models::{BufferView, LineView};
use crate::notify::recent;
use crate::people::{bridged, compact_sections, disambiguated};
use crate::ansi::SectionView;
use crate::state::{AppView, SelectedMentionView};
use crate::text::trim;
use crate::timeline::{bears_button, button_lines};
use crate::uploads::{hex, hex_char, PreparedView};

verus! {

// ---------------------------------------------------------------------------
// Avatars
// ---------------------------------------------------------------------------

proof fn lemma_place(side: int, x: int, y: int, c: int)
    requires
        0 <= x < side,
        0 <= y < side,
        0 <= c < 4,
    ensures
        ({
            let k = (y * side + x) * 4 + c;
            &&& 0 <= k < side * side * 4
            &&& k / (4 * side) == y
            &&& (k / 4) % side == x
            &&& k % 4 == c
        }),
{
    let q = y * side + x;
    let k = q * 4 + c;
    assert(k / 4 == q && k % 4 == c);
    assert(0 <= q < side * side) by (nonlinear_arith)
        requires
            0 <= x < side,
            0 <= y < side,
            q == y * side + x,
    ;
    vstd::arithmetic::div_mod::lemma_fundamental_div_mod_converse(q, side, y, x);
    let r = 4 * x + c;
    assert(k == y * (4 * side) + r) by (nonlinear_arith)
        requires
            k == q * 4 + c,
            q == y * side + x,
            r == 4 * x + c,
    ;
    vstd::arithmetic::div_mod::lemma_fundamental_div_mod_converse(k, 4 * side, y, r);
}

/// An avatar is the middle of its picture: as large as the shorter side, as far
/// from one edge as from the other, and each of its points is the point of the
/// picture that stands there.
pub proof fn avatars_are_cut_from_the_middle(
    width: u32,
    height: u32,
    rgba: Seq<u8>,
    x: int,
    y: int,
    c: int,
)
    requires
        0 < width,
        0 < height,
        rgba.len() == width * height * 4,
        0 <= c < 4,
    ensures
        ({
            let (left, top, side) = middle_square(width, height);
            &&& side == width || side == height
            &&& side <= width && side <= height
            &&& 0 <= width - side - 2 * left <= 1
            &&& 0 <= height - side - 2 * top <= 1
            &&& 0 <= x < side && 0 <= y < side ==> avatar_part(width, height, rgba)[(y * side + x) * 4
                + c] == rgba[((top + y) * width + left + x) * 4 + c]
        }),
{
    let (left, top, side) = middle_square(width, height);
    if 0 <= x < side && 0 <= y < side {
        lemma_place(side as int, x, y, c);
        let k = (y * side + x) * 4 + c;
        assert(square_source(width, left, top, side, k) == ((top + y) * width + left + x) * 4 + c);
        assert(square_part(width, rgba, left, top, side)[k] == rgba[square_source(
            width,
            left,
            top,
            side,
            k,
        )]);
    }
}

/// The colours of two avatars with different numbers differ.
pub proof fn avatar_colours_differ(i: int, j: int)
    requires
        0 <= i < j < 8,
    ensures
        avatar_color(i) != avatar_color(j),
{
}

/// Colours of nicks follow from the nick alone: each byte takes part.
pub proof fn colours_follow_from_the_nick(bytes: Seq<u8>, b: u8, modulus: int, name: Seq<char>)
    requires
        modulus > 255,
    ensures
        word_hash(bytes.push(b), bytes.len() + 1, modulus) == (word_hash(
            bytes,
            bytes.len(),
            modulus,
        ) * 31 + b) % modulus,
        word_hash(seq![b], 1, modulus) == b,
        1 <= nick_color(name) <= 15,
{
    lemma_hash_of_head(bytes, b, bytes.len(), modulus);
    assert(seq![b][0] == b);
    assert(word_hash(seq![b], 0, modulus) == 0);
    vstd::arithmetic::div_mod::lemma_small_mod(b as nat, modulus as nat);
    let h = word_hash(
        vstd::utf8::encode_utf8(name),
        vstd::utf8::encode_utf8(name).len(),
        0x1_0000_0000,
    );
    vstd::arithmetic::div_mod::lemma_mod_bound(h, 15);
}

proof fn lemma_hash_of_head(bytes: Seq<u8>, b: u8, n: nat, modulus: int)
    requires
        n <= bytes.len(),
    ensures
        word_hash(bytes.push(b), n, modulus) == word_hash(bytes, n, modulus),
    decreases n,
{
    if n > 0 {
        lemma_hash_of_head(bytes, b, (n - 1) as nat, modulus);
        assert(bytes.push(b)[n - 1] == bytes[n - 1]);
    }
}

// ---------------------------------------------------------------------------
// Loading
// ---------------------------------------------------------------------------

/// A picture is refused where it is too large, and where its size cannot be
/// read, for the reason that is given.
pub proof fn large_pictures_are_refused(width: u32, height: u32, error: Seq<char>)
    ensures
        width <= 8192 && height <= 8192 && width * height <= 25_000_000 <==> dimensions_verdict(
            Ok::<_, Seq<char>>((width, height)),
        ) is Ok,
        dimensions_verdict(Err::<(u32, u32), _>(error)) == Err::<(), _>(error),
{
}

/// What the clipboard holds is given as it was encoded; a failure says why.
pub proof fn clipboards_give_what_was_encoded(bytes: Seq<u8>, error: Seq<char>, other: Seq<char>)
    ensures
        clipboard_result(Some(Ok::<_, Seq<char>>(bytes))) == Ok::<_, Seq<char>>(bytes),
        clipboard_result(Some(Err::<Seq<u8>, _>(error))) is Err,
        clipboard_result(None) is Err,
        error != other ==> clipboard_result(Some(Err::<Seq<u8>, _>(error))) != clipboard_result(
            Some(Err::<Seq<u8>, _>(other)),
        ),
{
    let head = "Cannot encode clipboard image: "@;
    assert((head + error).skip(head.len() as int) =~= error);
    assert((head + other).skip(head.len() as int) =~= other);
}

/// A file is read once its size stays the same, and never while it is empty or
/// too large.
pub proof fn growing_files_are_not_read(wait: MediaWait, size: u64)
    ensures
        wait.step(size) == MediaStep::Read ==> size > 0 && wait.previous_size == Some(size),
        size > 20_971_520 <==> wait.step(size) == MediaStep::TooLarge,
        wait.after(size).previous_size == Some(size),
        wait.previous_size != Some(size) ==> wait.after(size).stable_samples == 0,
{
}

/// A picture that came is shown as loaded, one that failed as failed, and
/// neither is waited for any longer.
pub proof fn pictures_that_came_are_loaded(
    state: MediaStateView,
    url: Seq<char>,
    shown: bool,
    after: MediaStateView,
)
    requires
        state.takes_image(url, shown, after),
        state.image_cache.insert(
            url,
            if shown {
                ImageState::Loaded
            } else {
                ImageState::Failed
            },
        ).dom().len() <= 200,
    ensures
        after.image_cache.contains_key(url),
        shown ==> after.image_cache[url] == ImageState::Loaded,
        !shown ==> after.image_cache[url] == ImageState::Failed,
        !after.pending_matrix_media.contains(url),
        !shown ==> !after.image_full_size.contains(url),
        forall|other: Seq<char>|
            other != url && #[trigger] state.image_cache.contains_key(other)
                ==> after.image_cache.contains_key(other) && after.image_cache[other]
                == state.image_cache[other],
{
}

// ---------------------------------------------------------------------------
// Numbers in base sixteen
// ---------------------------------------------------------------------------

/// Two numbers look different, and only sixteen digits are used.
pub proof fn numbers_in_base_sixteen_differ(n: nat, m: nat)
    ensures
        n != m ==> hex(n) != hex(m),
        hex(n).len() > 0,
        '0' <= hex(n).last() <= '9' || 'a' <= hex(n).last() <= 'f',
    decreases n,
{
    lemma_sixteen_digits(n % 16, m % 16);
    assert(hex(n).last() == hex_char(n % 16));
    assert(hex(m).last() == hex_char(m % 16));
    if n != m && n % 16 == m % 16 {
        if n >= 16 && m >= 16 {
            numbers_in_base_sixteen_differ(n / 16, m / 16);
            assert(hex(n).drop_last() =~= hex(n / 16));
            assert(hex(m).drop_last() =~= hex(m / 16));
        } else if n >= 16 {
            numbers_in_base_sixteen_differ(n / 16, m / 16);
            assert(hex(n).len() == hex(n / 16).len() + 1);
        } else if m >= 16 {
            lemma_some_digit(m / 16);
            assert(hex(m).len() == hex(m / 16).len() + 1);
        }
    }
}

proof fn lemma_some_digit(n: nat)
    ensures
        hex(n).len() > 0,
{
}

proof fn lemma_sixteen_digits(a: nat, b: nat)
    requires
        a < 16,
        b < 16,
    ensures
        a != b ==> hex_char(a) != hex_char(b),
        '0' <= hex_char(a) <= '9' || 'a' <= hex_char(a) <= 'f',
{
    let x = hex_char(a) as u32;
    let y = hex_char(b) as u32;
    assert(a < 10 ==> x == 48 + a);
    assert(a >= 10 ==> x == 87 + a);
    assert(b < 10 ==> y == 48 + b);
    assert(b >= 10 ==> y == 87 + b);
}

// ---------------------------------------------------------------------------
// Shares
// ---------------------------------------------------------------------------

/// What was prepared is used as what it is: a link is sent, an attachment is
/// uploaded, a failure is told.
pub proof fn prepared_shares_are_used(
    state: AppView,
    id: Seq<char>,
    url: Seq<char>,
    filename: Seq<char>,
    mime: Seq<char>,
    bytes: Seq<u8>,
    upload_id: Seq<char>,
    error: Seq<char>,
    ticks: u64,
)
    ensures
        state.share_arrived(
            Ok(PreparedView::ExternalLink { buffer_id: id, url }),
            upload_id,
            ticks,
        ) == state.link_ready(id, url),
        state.share_arrived(
            Ok(PreparedView::MatrixAttachment { buffer_id: id, filename, mime, bytes }),
            upload_id,
            ticks,
        ).file_share_target_buffer_id == Some(id),
        error.len() > 0 ==> state.share_arrived(
            Err(error),
            upload_id,
            ticks,
        ).file_share_error == Some(error),
        !state.share_arrived(Err(error), upload_id, ticks).file_share_uploading,
{
}

// ---------------------------------------------------------------------------
// Lists
// ---------------------------------------------------------------------------

/// The list has one row for each buffer that is listed, in their order.
pub proof fn the_list_has_a_row_for_each(state: AppView, drag: Option<Seq<char>>, i: int)
    ensures
        state.sidebar(drag).len() == state.listed().len(),
        0 <= i < state.listed().len() ==> state.sidebar(drag)[i].id == state.listed()[i].id
            && state.sidebar(drag)[i].badge == crate::sidebar::badge(state.listed()[i]),
        state.sidebar(drag).len() > 0 ==> !state.sidebar(drag)[0].begins_connection,
{
}

/// A buffer is dragged alone, a server with all of its buffers.
pub proof fn servers_are_dragged_whole(state: AppView, id: Seq<char>, k: int, j: int)
    requires
        stands_at(state.buffers, id, k),
    ensures
        state.buffers[k].kind != "server"@ && state.buffers[k].kind != "core"@
            ==> state.dragged_ids(Some(id)) == seq![id],
        state.buffers[k].kind == "server"@ && 0 <= j < state.buffers.len()
            && state.buffers[j].server == state.buffers[k].server
            && state.buffers[j].matrix_thread_root is None ==> state.dragged_ids(Some(id)).contains(
            state.buffers[j].id,
        ),
        state.dragged_ids(None).len() == 0,
{
    buffers_are_found_by_id(state.buffers, id, k);
    let b = state.buffers[k];
    let p = |o: BufferView| o.server == b.server && !o.is_thread();
    if b.kind == "server"@ && 0 <= j < state.buffers.len() && p(state.buffers[j]) {
        state.buffers.lemma_filter_contains(p, j);
        let kept = state.buffers.filter(p);
        let n = choose|n: int| 0 <= n < kept.len() && kept[n] == state.buffers[j];
        assert(state.dragged_ids(Some(id))[n] == state.buffers[j].id);
    }
}

/// Each thread has its button on the last line of its event.
pub proof fn threads_have_a_button(
    messages: Seq<LineView>,
    events: Set<Seq<char>>,
    event: Seq<char>,
    i: int,
)
    requires
        events.contains(event),
        0 <= i < messages.len(),
        messages[i].matrix_event_id == Some(event),
        forall|j: int|
            i < j < messages.len() ==> (#[trigger] messages[j]).matrix_event_id != Some(event),
    ensures
        button_lines(messages, events).contains(messages[i].id),
{
    crate::laws::panels::buttons_stand_on_the_last_line(messages, event, i);
    assert(bears_button(messages, event, messages[i].id));
}

/// A sender of another network is shown with the name and the network; a plain
/// one is shown as written.
pub proof fn senders_are_shown_short(prefix: Seq<char>, sections: Seq<SectionView>)
    ensures
        bridged(prefix) is None && disambiguated(prefix) is None ==> compact_sections(
            prefix,
            sections,
        ) == sections,
        bridged(prefix) is Some ==> compact_sections(prefix, sections).len() == 2
            && compact_sections(prefix, sections)[0].text == (bridged(prefix)->0).0
            && compact_sections(prefix, sections)[1].text == " ·"@ + (bridged(prefix)->0).1
            && compact_sections(prefix, sections)[0].url is None,
{
}

// ---------------------------------------------------------------------------
// Input
// ---------------------------------------------------------------------------

/// A command that was accepted stands in the input, and its proposals are gone.
pub proof fn accepted_commands_stand_in_the_input(state: AppView, index: Option<usize>)
    ensures
        state.accepted(index) is Some ==> state.command_accepted(index).input_text
            == (state.accepted(index)->0).0,
        state.accepted(index) is None ==> state.command_accepted(index).input_text
            == state.input_text,
        state.command_accepted(index).command_completion is None,
        state.command_accepted(index).selected_buffer_id == state.selected_buffer_id,
{
}

/// A command that goes elsewhere names where.
pub proof fn commands_note_where_they_go(state: AppView, name: Seq<char>)
    requires
        trim(name) == name,
    ensures
        state.command_noted("/query "@ + name).pending_buffer_switch == Some(name),
        state.command_noted("/join "@ + name).pending_buffer_switch == Some(name),
{
    reveal_strlit("/query ");
    reveal_strlit("/join ");
    let query = "/query "@ + name;
    let join = "/join "@ + name;
    assert(query.subrange(0, 7) =~= "/query "@);
    assert(query.skip(7) =~= name);
    assert(join.subrange(0, 6) =~= "/join "@);
    assert(join.skip(6) =~= name);
    if crate::text::starts_with(join, "/query "@) {
        assert(join.subrange(0, 7)[1] == 'j');
        assert("/query "@[1] == 'q');
    }
}

/// Mentions that were taken out of the text are forgotten, the others stay.
pub proof fn mentions_follow_the_text(state: AppView, i: int)
    requires
        0 <= i < state.selected_mentions.len(),
    ensures
        state.selected_mentions[i].label == state.input_text && state.input_text.len() > 0
            ==> state.mentions_reconciled().selected_mentions.contains(state.selected_mentions[i]),
        !crate::text::contains(state.input_text, state.selected_mentions[i].label)
            && state.selected_mentions[i].label.len() > 0
            ==> !state.mentions_reconciled().selected_mentions.contains(
            state.selected_mentions[i],
        ),
        state.mentions_reconciled().input_text == state.input_text,
{
    let m = state.selected_mentions[i];
    let p = |m: SelectedMentionView|
        crate::completion::mention_from(state.input_text, m.label, 0);
    let kept = state.selected_mentions.filter(p);
    if m.label.len() > 0 {
        crate::laws::typing::whole_labels_mention(state.input_text, m.label);
        if p(m) {
            state.selected_mentions.lemma_filter_contains(p, i);
        } else if kept.contains(m) {
            let k = choose|k: int| 0 <= k < kept.len() && kept[k] == m;
            state.selected_mentions.lemma_filter_pred(p, k);
        }
    }
}

/// Notifications are remembered for five minutes.
pub proof fn notifications_are_remembered_for_a_while(
    map: Map<Seq<char>, u64>,
    ticks: u64,
    id: Seq<char>,
)
    requires
        map.contains_key(id),
        map[id] <= ticks,
    ensures
        ticks - map[id] < 300_000_000_000 ==> recent(map, ticks).contains_key(id) && recent(
            map,
            ticks,
        )[id] == map[id],
        ticks - map[id] >= 300_000_000_000 ==> !recent(map, ticks).contains_key(id),
{
}

} // verus!
