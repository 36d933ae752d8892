//! The list of buffers.
use vstd::prelude::*;
use crate::laws::given::{buffers_are_found_by_id, stands_at};
use crate::laws::texts::{different_numbers_look_different, written_numbers_are_read_back};
use crate::models::{BufferActivity, BufferView};
use crate::order::{after_drag, is_root};
use crate::rooms::visible;
use crate::seqs::first_index;
use crate::sidebar::{badge, menu, row_label, tone, MenuCommand, RightPanelKind, RowTone};
use crate::state::AppView;
use crate::text::{all_digits, digits_value};

verus! {

/// Whether a buffer stands for a conversation and not for a server.
pub open spec fn is_conversation(b: BufferView) -> bool {
    b.kind != "server"@ && b.kind != "core"@
}

/// The badge of a conversation is its unread count in digits, up to 99, and
/// says that there are more beyond.
pub proof fn badges_say_how_much_is_unread(b: BufferView)
    ensures
        !b.muted && is_conversation(b) && 1 <= b.unread_count <= 99 ==> badge(b) is Some
            && all_digits(badge(b)->0) && digits_value(badge(b)->0) == b.unread_count,
        !b.muted && is_conversation(b) && b.unread_count > 99 ==> badge(b) == Some("99+"@),
        b.unread_count == 0 ==> badge(b) is None,
        b.muted ==> badge(b) is None,
        !is_conversation(b) ==> badge(b) is None,
{
    written_numbers_are_read_back(b.unread_count as nat);
}

/// Different counts up to 99 have different badges, and none of them is the
/// badge of more.
pub proof fn different_counts_have_different_badges(b: BufferView, c: BufferView)
    requires
        !b.muted && is_conversation(b),
        !c.muted && is_conversation(c),
        1 <= b.unread_count <= 99,
        1 <= c.unread_count,
        b.unread_count != c.unread_count,
    ensures
        badge(b) != badge(c),
{
    different_numbers_look_different(b.unread_count as nat, c.unread_count as nat);
    written_numbers_are_read_back(b.unread_count as nat);
    if c.unread_count > 99 {
        reveal_strlit("99+");
        assert(!crate::text::is_digit("99+"@[2]));
        assert(!all_digits("99+"@));
    }
}

/// Every row stands for its buffer: its id, its count, how loud it is, and
/// whether it is the one on view.
pub proof fn rows_stand_for_their_buffers(
    state: AppView,
    b: BufferView,
    above: Option<BufferView>,
    dragged: Seq<Seq<char>>,
)
    ensures
        ({
            let row = state.row(b, above, dragged);
            &&& row.id == b.id
            &&& row.badge == badge(b)
            &&& row.is_root == !is_conversation(b)
            &&& row.is_child == (b.kind == "channel"@ || b.kind == "private"@)
            &&& row.has_avatar == (b.plugin == "matrix"@ && (b.kind == "channel"@ || b.kind
                == "private"@))
            &&& row.in_dragged_group == dragged.contains(b.id)
            &&& row.is_alert == (b.activity == BufferActivity::Highlight)
            &&& row.is_collapsible == (b.kind == "server"@)
            &&& row.is_collapsed == state.collapsed_servers.contains(b.server)
            &&& state.selected_buffer_id == Some(b.id) ==> row.tone == RowTone::Selected
            &&& state.selected_buffer_id != Some(b.id) && b.muted ==> row.tone == RowTone::Muted
            &&& state.selected_buffer_id != Some(b.id) && !b.muted && is_conversation(b)
                ==> row.tone == (match b.activity {
                BufferActivity::Highlight => RowTone::Highlight,
                BufferActivity::Message => RowTone::Message,
                BufferActivity::Metadata => RowTone::Metadata,
                BufferActivity::Idle => RowTone::Quiet,
            })
        }),
{
    reveal_strlit("server");
    reveal_strlit("core");
    assert("server"@.len() != "core"@.len());
}

/// A conversation is listed under its own name, with a mark before it where it
/// is muted or wants attention.
pub proof fn rows_are_labelled_with_the_name(b: BufferView, replaced: Set<Seq<char>>)
    requires
        is_conversation(b),
    ensures
        b.muted ==> row_label(b, replaced) == "🔇 "@ + b.name,
        !b.muted && b.activity == BufferActivity::Highlight ==> row_label(b, replaced) == "• "@
            + b.name,
        !b.muted && b.activity != BufferActivity::Highlight && (b.matrix_room_id is None
            || !replaced.contains(b.matrix_room_id->0)) ==> row_label(b, replaced) == b.name,
{
}

/// A buffer is listed unless it is a thread, a replaced room, hidden while
/// hidden ones are not asked for, or folded away under its server.
pub proof fn buffers_are_listed_unless_put_away(
    b: BufferView,
    show_hidden: bool,
    collapsed: Set<Seq<char>>,
    replaced: Set<Seq<char>>,
)
    ensures
        !b.hidden && b.matrix_thread_root is None && b.matrix_room_id is None
            && !collapsed.contains(b.server) ==> visible(b, show_hidden, collapsed, replaced),
        b.hidden && !show_hidden ==> !visible(b, show_hidden, collapsed, replaced),
        b.plugin == "matrix"@ && b.matrix_room_id is Some && b.matrix_thread_root is Some
            ==> !visible(b, show_hidden, collapsed, replaced),
        is_conversation(b) && collapsed.contains(b.server) ==> !visible(
            b,
            show_hidden,
            collapsed,
            replaced,
        ),
        !is_conversation(b) && !b.hidden && b.matrix_room_id is None ==> visible(
            b,
            show_hidden,
            collapsed,
            replaced,
        ),
        b.matrix_room_id is Some && replaced.contains(b.matrix_room_id->0) ==> !visible(
            b,
            show_hidden,
            collapsed,
            replaced,
        ),
        visible(b, false, collapsed, replaced) ==> visible(b, true, collapsed, replaced),
{
}

/// A channel can be left, every buffer can be closed, and one that is hidden
/// can be shown again.
pub proof fn menus_offer_what_can_be_done(b: BufferView)
    ensures
        menu(b).contains(MenuCommand::Close),
        menu(b).contains(MenuCommand::Part) <==> b.kind == "channel"@,
        menu(b).contains(MenuCommand::Unhide) <==> b.hidden,
        menu(b).contains(MenuCommand::Hide) <==> !b.hidden,
{
    let m = menu(b);
    let n = m.len();
    assert(m[n - 1] == MenuCommand::Close);
    assert(m[n - 2] == (if b.hidden {
        MenuCommand::Unhide
    } else {
        MenuCommand::Hide
    }));
    if b.kind == "channel"@ {
        assert(m[0] == MenuCommand::Part);
    }
}

/// The commands of the menu.
pub proof fn menu_commands_say_what_they_do(command: MenuCommand)
    ensures
        command.spec_text() == (if command == MenuCommand::Part {
            "/part"@
        } else if command == MenuCommand::Close {
            "/close"@
        } else if command == MenuCommand::Hide {
            "/buffer hide"@
        } else {
            "/buffer unhide"@
        }),
{
}

/// A buffer that is muted is quiet, and stays muted under its name; one that is
/// no longer muted keeps what it counts.
pub proof fn muting_quietens(
    state: AppView,
    id: Seq<char>,
    full_name: Seq<char>,
    mute: bool,
    k: int,
)
    requires
        stands_at(state.buffers, id, k),
    ensures
        ({
            let after = state.muting(id, full_name, mute);
            &&& after.buffers[k].muted == mute
            &&& after.muted_buffer_names.contains(full_name) == mute
            &&& mute ==> after.buffers[k].unread_count == 0 && after.buffers[k].activity
                == BufferActivity::Idle
            &&& !mute ==> after.buffers[k].unread_count == state.buffers[k].unread_count
                && after.buffers[k].activity == state.buffers[k].activity
            &&& after.buffers[k].messages == state.buffers[k].messages
            &&& forall|j: int|
                0 <= j < state.buffers.len() && j != k ==> (#[trigger] after.buffers[j])
                    == state.buffers[j]
        }),
{
    buffers_are_found_by_id(state.buffers, id, k);
}

/// Folding a server folds it, and no other.
pub proof fn folding_folds_the_server(state: AppView, server: Seq<char>, other: Seq<char>)
    ensures
        state.collapse_toggled(server).collapsed_servers.contains(server)
            == !state.collapsed_servers.contains(server),
        other != server ==> state.collapse_toggled(server).collapsed_servers.contains(other)
            == state.collapsed_servers.contains(other),
{
}

/// The panel beside a conversation holds the open thread, or else the nicks
/// where there are some to show.
pub proof fn the_panel_holds_the_thread_or_the_nicks(
    state: AppView,
    show_nicklist: bool,
    connected: bool,
    id: Seq<char>,
    k: int,
)
    requires
        stands_at(state.buffers, id, k),
    ensures
        state.open_thread_buffer_id is Some ==> state.right_panel(show_nicklist, connected)
            == RightPanelKind::Thread,
        state.open_thread_buffer_id is None && state.selected_buffer_id == Some(id) ==> (
        state.right_panel(show_nicklist, connected) == RightPanelKind::Nicklist <==> show_nicklist
            && connected && state.buffers[k].has_nicklist),
{
    buffers_are_found_by_id(state.buffers, id, k);
}

/// A buffer that is dropped before another stands right before it.
pub proof fn dropped_buffers_stand_before_the_target(
    buffers: Seq<BufferView>,
    at: int,
    to: int,
)
    requires
        0 <= at < buffers.len(),
        0 <= to < buffers.len(),
        at != to,
        is_conversation(buffers[at]),
        stands_at(buffers, buffers[at].id, at),
        stands_at(buffers, buffers[to].id, to),
    ensures
        ({
            let after = after_drag(buffers, buffers[at].id, Some(buffers[to].id));
            exists|i: int|
                0 <= i < after.len() - 1 && (#[trigger] after[i]) == buffers[at] && after[i + 1]
                    == buffers[to]
        }),
{
    buffers_are_found_by_id(buffers, buffers[at].id, at);
    let target = buffers[to].id;
    let rest = buffers.remove(at);
    let place = if to < at {
        to
    } else {
        to - 1
    };
    assert(rest[place] == buffers[to]);
    assert forall|j: int| 0 <= j < rest.len() && j != place implies (#[trigger] rest[j]).id
        != target by {
        if j < at {
            assert(rest[j] == buffers[j]);
        } else {
            assert(rest[j] == buffers[j + 1]);
        }
    }
    assert(stands_at(rest, target, place));
    buffers_are_found_by_id(rest, target, place);
    let moved = seq![buffers[at]];
    assert(!crate::order::has_id(moved, target)) by {
        assert forall|i: int| 0 <= i < moved.len() implies (#[trigger] moved[i]).id != target by {
            assert(buffers[at].id != target);
        }
    }
    assert(first_index(rest, |b: BufferView| b.id == buffers[to].id) == Some(place));
    assert(crate::order::dragged(buffers, at) == moved);
    let after = rest.take(place) + moved + rest.skip(place);
    assert(after_drag(buffers, buffers[at].id, Some(buffers[to].id)) == after);
    assert(after[place] == buffers[at]);
    assert(after[place + 1] == buffers[to]);
}

/// A buffer that is dropped behind all others stands last.
pub proof fn dropped_buffers_stand_last(buffers: Seq<BufferView>, at: int)
    requires
        0 <= at < buffers.len(),
        is_conversation(buffers[at]),
        stands_at(buffers, buffers[at].id, at),
    ensures
        after_drag(buffers, buffers[at].id, None).len() == buffers.len(),
        after_drag(buffers, buffers[at].id, None).last() == buffers[at],
{
    buffers_are_found_by_id(buffers, buffers[at].id, at);
}

} // verus!
