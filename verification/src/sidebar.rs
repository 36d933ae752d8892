//! The list of buffers.
use vstd::prelude::*;
use vstd::string::StringExecFns;
use crate::collections::TextSet;
use crate::connection::ConnectionView;
use crate::models::{Buffer, BufferActivity, BufferView};
use crate::order::{
    after_drag, apply_drag_reorder, connection_of, connection_part, is_group_root, is_root, rows,
};
use crate::relay_buffers::{ids_of, row_ids};
use crate::rooms::{buffer_visible_in_sidebar, replaced_matrix_room_ids, replaced_rooms, visible};
use crate::seqs::{last_index, lemma_filter_take, lemma_last_index, lemma_last_is, views};
use crate::state::{buffer_of, lemma_touched, AppView, WeeChatApp};
use crate::text::{
    decimal, join2, join3, opt_is, opt_str, opt_text, same_text, text_in, texts, to_uppercase_text,
    u64_text, uppercase_text,
};

verus! {

// ---------------------------------------------------------------------------
// Rows
// ---------------------------------------------------------------------------

pub open spec fn has_avatar(b: BufferView) -> bool {
    b.plugin == "matrix"@ && (b.kind == "channel"@ || b.kind == "private"@)
}

/// Whether a buffer stands in the list with an avatar: a Matrix room or a
/// conversation.
pub fn buffer_has_sidebar_avatar(buffer: &Buffer) -> (yes: bool)
    ensures
        yes == has_avatar(buffer@),
{
    same_text(buffer.plugin.as_str(), "matrix") && (same_text(buffer.kind.as_str(), "channel")
        || same_text(buffer.kind.as_str(), "private"))
}

/// What a row of the list looks like.
#[derive(Debug, Clone, Copy, PartialEq, Eq, Structural)]
pub enum RowTone {
    Selected,
    Muted,
    Root,
    Highlight,
    Message,
    Metadata,
    Quiet,
}

/// A row of the list of buffers.
#[derive(Debug)]
pub struct SidebarRow {
    pub id: String,
    /// The name of the connection, where a heading stands above the row.
    pub heading: Option<String>,
    /// Whether the row begins another connection than the row above it.
    pub begins_connection: bool,
    pub is_root: bool,
    pub is_child: bool,
    pub has_avatar: bool,
    pub in_dragged_group: bool,
    pub tone: RowTone,
    pub label: String,
    pub badge: Option<String>,
    pub is_alert: bool,
    pub is_collapsible: bool,
    pub is_collapsed: bool,
}

pub ghost struct RowView {
    pub id: Seq<char>,
    pub heading: Option<Seq<char>>,
    pub begins_connection: bool,
    pub is_root: bool,
    pub is_child: bool,
    pub has_avatar: bool,
    pub in_dragged_group: bool,
    pub tone: RowTone,
    pub label: Seq<char>,
    pub badge: Option<Seq<char>>,
    pub is_alert: bool,
    pub is_collapsible: bool,
    pub is_collapsed: bool,
}

impl View for SidebarRow {
    type V = RowView;

    open spec fn view(&self) -> RowView {
        RowView {
            id: self.id@,
            heading: opt_text(self.heading),
            begins_connection: self.begins_connection,
            is_root: self.is_root,
            is_child: self.is_child,
            has_avatar: self.has_avatar,
            in_dragged_group: self.in_dragged_group,
            tone: self.tone,
            label: self.label@,
            badge: opt_text(self.badge),
            is_alert: self.is_alert,
            is_collapsible: self.is_collapsible,
            is_collapsed: self.is_collapsed,
        }
    }
}

pub open spec fn tone(b: BufferView, selected: bool) -> RowTone {
    if selected {
        RowTone::Selected
    } else if b.muted {
        RowTone::Muted
    } else if is_root(b) {
        RowTone::Root
    } else {
        match b.activity {
            BufferActivity::Highlight => RowTone::Highlight,
            BufferActivity::Message => RowTone::Message,
            BufferActivity::Metadata => RowTone::Metadata,
            BufferActivity::Idle => RowTone::Quiet,
        }
    }
}

/// The name on a row: with a dot where the user was named, with a sign where
/// the buffer is muted, and in capitals at the head of a server.
pub open spec fn row_label(b: BufferView, replaced: Set<Seq<char>>) -> Seq<char> {
    let name = if !b.muted && b.activity is Highlight {
        "• "@ + b.name
    } else if b.muted {
        "🔇 "@ + b.name
    } else if b.matrix_room_id is Some && replaced.contains(b.matrix_room_id->0) {
        "↪ "@ + b.name + " (replaced)"@
    } else {
        b.name
    };
    if is_root(b) {
        uppercase_text(name)
    } else {
        name
    }
}

/// The count of unread lines on a row, up to 99.
pub open spec fn badge(b: BufferView) -> Option<Seq<char>> {
    if b.muted || is_root(b) || b.unread_count == 0 {
        None
    } else if b.unread_count > 99 {
        Some("99+"@)
    } else {
        Some(decimal(b.unread_count as nat))
    }
}

/// The name of a connection in headings: its label, or else its prefix.
pub open spec fn connection_label(connections: Seq<ConnectionView>, prefix: Seq<char>) -> Seq<char> {
    match last_index(connections, |c: ConnectionView| c.prefix == prefix) {
        Some(i) => connections[i].label,
        None => prefix,
    }
}

/// Whether there are connections with different prefixes.
pub open spec fn several_connections(connections: Seq<ConnectionView>) -> bool {
    exists|i: int|
        0 < i < connections.len() && (#[trigger] connections[i]).prefix != connections[0].prefix
}

impl AppView {
    /// The buffers that move with a dragged one: all of its server, where it
    /// heads one.
    pub open spec fn dragged_ids(self, drag_id: Option<Seq<char>>) -> Seq<Seq<char>> {
        match drag_id {
            Some(id) => match buffer_of(self.buffers, id) {
                Some(b) => if is_root(b) {
                    ids_of(
                        self.buffers.filter(
                            |o: BufferView| o.server == b.server && !o.is_thread(),
                        ),
                    )
                } else {
                    seq![id]
                },
                None => Seq::empty(),
            },
            None => Seq::empty(),
        }
    }

    /// The buffers that stand in the list.
    pub open spec fn listed(self) -> Seq<BufferView> {
        let replaced = replaced_rooms(self.buffers);
        self.buffers.filter(
            |b: BufferView|
                visible(b, self.show_hidden_buffers, self.collapsed_servers, replaced),
        )
    }

    /// The row of a buffer below another one.
    pub open spec fn row(
        self,
        b: BufferView,
        above: Option<BufferView>,
        dragged: Seq<Seq<char>>,
    ) -> RowView {
        let prefix = connection_of(b.id);
        let begins = above is None || connection_of(above->0.id) != prefix;
        RowView {
            id: b.id,
            heading: if begins && several_connections(self.connections) && !is_root(b) {
                Some(uppercase_text(connection_label(self.connections, prefix)))
            } else {
                None
            },
            begins_connection: above is Some && begins,
            is_root: is_root(b),
            is_child: b.kind == "channel"@ || b.kind == "private"@,
            has_avatar: has_avatar(b),
            in_dragged_group: dragged.contains(b.id),
            tone: tone(b, self.selected_buffer_id == Some(b.id)),
            label: row_label(b, replaced_rooms(self.buffers)),
            badge: badge(b),
            is_alert: b.activity is Highlight,
            is_collapsible: is_root(b) && b.kind != "core"@,
            is_collapsed: self.collapsed_servers.contains(b.server),
        }
    }

    /// The rows of the list of buffers.
    pub open spec fn sidebar(self, drag_id: Option<Seq<char>>) -> Seq<RowView> {
        let list = self.listed();
        let dragged = self.dragged_ids(drag_id);
        Seq::new(
            list.len(),
            |i: int|
                self.row(
                    list[i],
                    if i > 0 {
                        Some(list[i - 1])
                    } else {
                        None
                    },
                    dragged,
                ),
        )
    }
}

fn tone_of(b: &Buffer, selected: bool) -> (t: RowTone)
    ensures
        t == tone(b@, selected),
{
    if selected {
        RowTone::Selected
    } else if b.muted {
        RowTone::Muted
    } else if is_group_root(b) {
        RowTone::Root
    } else {
        match b.activity {
            BufferActivity::Highlight => RowTone::Highlight,
            BufferActivity::Message => RowTone::Message,
            BufferActivity::Metadata => RowTone::Metadata,
            BufferActivity::Idle => RowTone::Quiet,
        }
    }
}

fn row_label_of(b: &Buffer, replaced: &TextSet) -> (label: String)
    ensures
        label@ == row_label(b@, replaced@),
{
    let is_replaced = match &b.matrix_room_id {
        Some(room_id) => replaced.contains(room_id.as_str()),
        None => false,
    };
    let name = if !b.muted && b.activity == BufferActivity::Highlight {
        join2("• ", b.name.as_str())
    } else if b.muted {
        join2("🔇 ", b.name.as_str())
    } else if is_replaced {
        join3("↪ ", b.name.as_str(), " (replaced)")
    } else {
        b.name.clone()
    };
    if is_group_root(b) {
        to_uppercase_text(name.as_str())
    } else {
        name
    }
}

fn badge_of(b: &Buffer) -> (text: Option<String>)
    ensures
        opt_text(text) == badge(b@),
{
    if b.muted || is_group_root(b) || b.unread_count == 0 {
        None
    } else if b.unread_count > 99 {
        Some("99+".to_owned())
    } else {
        Some(u64_text(b.unread_count as u64))
    }
}

impl WeeChatApp {
    fn connection_label_of(&self, prefix: &str) -> (label: String)
        ensures
            label@ == connection_label(self@.connections, prefix@),
    {
        let ghost all = self@.connections;
        let ghost p = |c: ConnectionView| c.prefix == prefix@;
        let mut i: usize = self.connections.len();
        while i > 0
            invariant
                i <= self.connections@.len(),
                all == views(self.connections@),
                p == (|c: ConnectionView| c.prefix == prefix@),
                forall|j: int| i <= j < all.len() ==> !p(#[trigger] all[j]),
            decreases i,
        {
            i = i - 1;
            assert(all[i as int] == self.connections@[i as int]@);
            if same_text(self.connections[i].prefix.as_str(), prefix) {
                proof {
                    lemma_last_is(all, p, i as int);
                }
                return self.connections[i].label.clone();
            }
        }
        proof {
            lemma_last_index(all, p);
        }
        prefix.to_owned()
    }

    fn has_several_connections(&self) -> (yes: bool)
        ensures
            yes == several_connections(self@.connections),
    {
        let ghost all = self@.connections;
        let mut i: usize = 1;
        while i < self.connections.len()
            invariant
                1 <= i,
                i <= self.connections@.len() || self.connections@.len() == 0,
                all == views(self.connections@),
                forall|j: int| 0 < j < i && j < all.len() ==> (#[trigger] all[j]).prefix == all[0].prefix,
            decreases self.connections@.len() - i,
        {
            assert(all[i as int] == self.connections@[i as int]@);
            assert(all[0] == self.connections@[0]@);
            if !same_text(self.connections[i].prefix.as_str(), self.connections[0].prefix.as_str()) {
                return true;
            }
            i = i + 1;
        }
        false
    }

    /// The buffers that move with a dragged one.
    pub fn dragged_group(&self, drag_id: Option<&str>) -> (ids: Vec<String>)
        requires
            self.wf(),
        ensures
            texts(ids@) == self@.dragged_ids(opt_str(drag_id)),
    {
        let mut ids: Vec<String> = Vec::new();
        assert(texts(ids@) =~= Seq::empty());
        let id = match drag_id {
            Some(id) => id,
            None => {
                return ids;
            },
        };
        let b = match self.buffer_by_id(id) {
            Some(b) => b,
            None => {
                return ids;
            },
        };
        if !is_group_root(b) {
            ids.push(id.to_owned());
            assert(texts(ids@) =~= seq![id@]);
            return ids;
        }
        let ghost all = self@.buffers;
        let ghost p = |o: BufferView| o.server == b@.server && !o.is_thread();
        let mut i: usize = 0;
        proof {
            reveal(Seq::filter);
            assert(texts(ids@) =~= ids_of(all.take(0).filter(p)));
        }
        while i < self.buffers.len()
            invariant
                i <= self.buffers@.len(),
                all == views(self.buffers@),
                p == (|o: BufferView| o.server == b@.server && !o.is_thread()),
                texts(ids@) == ids_of(all.take(i as int).filter(p)),
            decreases self.buffers@.len() - i,
        {
            let ghost before = ids@;
            let o = &self.buffers[i];
            proof {
                lemma_filter_take(all, i as int, p);
                assert(all[i as int] == o@);
            }
            if same_text(o.server.as_str(), b.server.as_str()) && !o.is_matrix_thread() {
                ids.push(o.id.clone());
                assert(texts(ids@) =~= texts(before).push(o@.id));
                assert(ids_of(all.take(i as int).filter(p).push(o@)) =~= ids_of(
                    all.take(i as int).filter(p),
                ).push(o@.id));
            }
            i = i + 1;
        }
        assert(all.take(i as int) =~= all);
        ids
    }

    fn row_of(
        &self,
        b: &Buffer,
        above: Option<&Buffer>,
        dragged: &Vec<String>,
        replaced: &TextSet,
        several: bool,
    ) -> (row: SidebarRow)
        requires
            replaced@ == replaced_rooms(self@.buffers),
            several == several_connections(self@.connections),
        ensures
            row@ == self@.row(
                b@,
                match above {
                    Some(o) => Some(o@),
                    None => None,
                },
                texts(dragged@),
            ),
    {
        let prefix = connection_part(b.id.as_str());
        let begins = match above {
            Some(o) => {
                let other = connection_part(o.id.as_str());
                !same_text(other.as_str(), prefix.as_str())
            },
            None => true,
        };
        let root = is_group_root(b);
        SidebarRow {
            id: b.id.clone(),
            heading: if begins && several && !root {
                let label = self.connection_label_of(prefix.as_str());
                Some(to_uppercase_text(label.as_str()))
            } else {
                None
            },
            begins_connection: above.is_some() && begins,
            is_root: root,
            is_child: same_text(b.kind.as_str(), "channel") || same_text(
                b.kind.as_str(),
                "private",
            ),
            has_avatar: buffer_has_sidebar_avatar(b),
            in_dragged_group: text_in(dragged, b.id.as_str()),
            tone: tone_of(b, opt_is(&self.selected_buffer_id, b.id.as_str())),
            label: row_label_of(b, replaced),
            badge: badge_of(b),
            is_alert: b.activity == BufferActivity::Highlight,
            is_collapsible: root && !same_text(b.kind.as_str(), "core"),
            is_collapsed: self.collapsed_servers.contains(b.server.as_str()),
        }
    }

    fn listed_places(&self, replaced: &TextSet) -> (places: Vec<usize>)
        requires
            replaced@ == replaced_rooms(self@.buffers),
        ensures
            places@.len() == self@.listed().len(),
            forall|k: int|
                0 <= k < places@.len() ==> #[trigger] places@[k] < self.buffers@.len()
                    && self.buffers@[places@[k] as int]@ == self@.listed()[k],
    {
        let ghost all = self@.buffers;
        let ghost p = |b: BufferView|
            visible(b, self@.show_hidden_buffers, self@.collapsed_servers, replaced@);
        let mut places: Vec<usize> = Vec::new();
        let mut i: usize = 0;
        proof {
            reveal(Seq::filter);
            assert(all.take(0).filter(p) =~= Seq::empty());
        }
        while i < self.buffers.len()
            invariant
                i <= self.buffers@.len(),
                all == views(self.buffers@),
                p == (|b: BufferView|
                    visible(b, self@.show_hidden_buffers, self@.collapsed_servers, replaced@)),
                places@.len() == all.take(i as int).filter(p).len(),
                forall|k: int|
                    0 <= k < places@.len() ==> #[trigger] places@[k] < self.buffers@.len()
                        && self.buffers@[places@[k] as int]@ == all.take(i as int).filter(p)[k],
            decreases self.buffers@.len() - i,
        {
            proof {
                lemma_filter_take(all, i as int, p);
                assert(all[i as int] == self.buffers@[i as int]@);
            }
            if buffer_visible_in_sidebar(
                &self.buffers[i],
                self.show_hidden_buffers,
                &self.collapsed_servers,
                replaced,
            ) {
                places.push(i);
            }
            i = i + 1;
        }
        assert(all.take(i as int) =~= all);
        places
    }

    /// The rows of the list of buffers, while a buffer is dragged or not.
    pub fn sidebar_rows(&self, drag_id: Option<&str>) -> (list: Vec<SidebarRow>)
        requires
            self.wf(),
        ensures
            views(list@) == self@.sidebar(opt_str(drag_id)),
    {
        let replaced = replaced_matrix_room_ids(&self.buffers);
        let places = self.listed_places(&replaced);
        let dragged = self.dragged_group(drag_id);
        let several = self.has_several_connections();
        let ghost shown = self@.listed();
        let mut list: Vec<SidebarRow> = Vec::new();
        let mut k: usize = 0;
        while k < places.len()
            invariant
                k <= places@.len(),
                list@.len() == k,
                replaced@ == replaced_rooms(self@.buffers),
                several == several_connections(self@.connections),
                texts(dragged@) == self@.dragged_ids(opt_str(drag_id)),
                shown == self@.listed(),
                places@.len() == shown.len(),
                forall|j: int|
                    0 <= j < places@.len() ==> #[trigger] places@[j] < self.buffers@.len()
                        && self.buffers@[places@[j] as int]@ == shown[j],
                forall|j: int|
                    0 <= j < k ==> (#[trigger] list@[j])@ == self@.sidebar(opt_str(drag_id))[j],
            decreases places@.len() - k,
        {
            let b = &self.buffers[places[k]];
            let above = if k > 0 {
                Some(&self.buffers[places[k - 1]])
            } else {
                None
            };
            list.push(self.row_of(b, above, &dragged, &replaced, several));
            k = k + 1;
        }
        assert(views(list@) =~= self@.sidebar(opt_str(drag_id)));
        list
    }
}

/// The list shows exactly the visible buffers, each once and in their order.
pub proof fn every_visible_buffer_has_one_row(state: AppView, drag_id: Option<Seq<char>>)
    ensures
        state.sidebar(drag_id).map_values(|r: RowView| r.id) == ids_of(state.listed()),
{
    assert(state.sidebar(drag_id).map_values(|r: RowView| r.id) =~= ids_of(state.listed()));
}

/// A muted buffer shows no count, whatever arrives in it.
pub proof fn muted_rows_have_no_badge(b: BufferView, above: Option<BufferView>, state: AppView)
    requires
        b.muted,
    ensures
        state.row(b, above, Seq::empty()).badge is None,
{
}

// ---------------------------------------------------------------------------
// Changes made in the list
// ---------------------------------------------------------------------------

impl AppView {
    /// The state with a server folded or unfolded.
    pub open spec fn collapse_toggled(self, server: Seq<char>) -> AppView {
        AppView {
            collapsed_servers: if self.collapsed_servers.contains(server) {
                self.collapsed_servers.remove(server)
            } else {
                self.collapsed_servers.insert(server)
            },
            ..self
        }
    }

    /// The state with a buffer muted or not. Muting forgets what is unread.
    pub open spec fn muting(self, id: Seq<char>, full_name: Seq<char>, mute: bool) -> AppView {
        AppView {
            muted_buffer_names: if mute {
                self.muted_buffer_names.insert(full_name)
            } else {
                self.muted_buffer_names.remove(full_name)
            },
            ..self
        }.changing(id, |b: BufferView| muted_as(b, mute))
    }

    /// The state after a buffer was dropped in another place.
    pub open spec fn dropped(self, drag_id: Seq<char>, before: Option<Seq<char>>) -> AppView {
        let buffers = after_drag(self.buffers, drag_id, before);
        AppView { buffers, buffer_order: ids_of(rows(buffers)), ..self }
    }
}

pub open spec fn muted_as(b: BufferView, mute: bool) -> BufferView {
    if mute {
        BufferView { muted: true, activity: BufferActivity::Idle, unread_count: 0, ..b }
    } else {
        BufferView { muted: false, ..b }
    }
}

impl WeeChatApp {
    /// Folds or unfolds a server.
    pub fn toggle_collapsed(&mut self, server: String)
        ensures
            final(self)@ == old(self)@.collapse_toggled(server@),
            old(self).wf() ==> final(self).wf(),
    {
        let ghost before = self@;
        if self.collapsed_servers.contains(server.as_str()) {
            self.collapsed_servers.remove(server.as_str());
        } else {
            self.collapsed_servers.insert(server);
        }
        assert(self@.buffers == before.buffers);
    }

    fn note_muted(&mut self, full_name: String, mute: bool)
        ensures
            final(self)@ == (AppView {
                muted_buffer_names: if mute {
                    old(self)@.muted_buffer_names.insert(full_name@)
                } else {
                    old(self)@.muted_buffer_names.remove(full_name@)
                },
                ..old(self)@
            }),
            old(self).wf() ==> final(self).wf(),
    {
        let ghost before = self@;
        if mute {
            self.muted_buffer_names.insert(full_name);
        } else {
            self.muted_buffer_names.remove(full_name.as_str());
        }
        assert(self@.buffers == before.buffers);
    }

    /// Mutes a buffer or ends that.
    pub fn set_muted(&mut self, id: &str, full_name: String, mute: bool)
        requires
            old(self).wf(),
        ensures
            final(self).wf(),
            final(self)@ == old(self)@.muting(id@, full_name@, mute),
    {
        self.note_muted(full_name, mute);
        match self.buffer_idx_of(id) {
            Some(i) => {
                let ghost before = self.buffers@;
                let b = &mut self.buffers[i];
                b.muted = mute;
                if mute {
                    b.activity = BufferActivity::Idle;
                    b.unread_count = 0;
                }
                proof {
                    lemma_touched(before, self.buffers@, i as int);
                    assert(views(before)[i as int] == before[i as int]@);
                }
            },
            None => {},
        }
    }

    /// Puts a dragged buffer, with all of its server where it heads one, into
    /// another place, and keeps the new order.
    pub fn drop_buffer(&mut self, drag_id: &str, drop_before_id: Option<&str>)
        ensures
            final(self).wf(),
            final(self)@ == old(self)@.dropped(drag_id@, opt_str(drop_before_id)),
    {
        apply_drag_reorder(&mut self.buffers, drag_id, drop_before_id);
        self.buffer_order = row_ids(&self.buffers);
        self.rebuild_buffer_idx();
    }
}

/// Folding a server twice changes nothing.
pub proof fn folding_twice_changes_nothing(state: AppView, server: Seq<char>)
    ensures
        state.collapse_toggled(server).collapse_toggled(server) == state,
{
    assert(state.collapse_toggled(server).collapse_toggled(server).collapsed_servers
        =~= state.collapsed_servers);
}

/// A command that the menu of a buffer offers.
#[derive(Debug, Clone, Copy, PartialEq, Eq, Structural)]
pub enum MenuCommand {
    Part,
    Hide,
    Unhide,
    Close,
}

pub open spec fn menu(b: BufferView) -> Seq<MenuCommand> {
    (if b.kind == "channel"@ {
        seq![MenuCommand::Part]
    } else {
        Seq::empty()
    }).push(
        if b.hidden {
            MenuCommand::Unhide
        } else {
            MenuCommand::Hide
        },
    ).push(MenuCommand::Close)
}

/// The commands that the menu of a buffer offers.
pub fn buffer_menu(buffer: &Buffer) -> (commands: Vec<MenuCommand>)
    ensures
        commands@ == menu(buffer@),
{
    let mut commands: Vec<MenuCommand> = Vec::new();
    if same_text(buffer.kind.as_str(), "channel") {
        commands.push(MenuCommand::Part);
    }
    commands.push(
        if buffer.hidden {
            MenuCommand::Unhide
        } else {
            MenuCommand::Hide
        },
    );
    commands.push(MenuCommand::Close);
    assert(commands@ =~= menu(buffer@));
    commands
}

impl MenuCommand {
    pub open spec fn spec_text(self) -> Seq<char> {
        match self {
            MenuCommand::Part => "/part"@,
            MenuCommand::Hide => "/buffer hide"@,
            MenuCommand::Unhide => "/buffer unhide"@,
            MenuCommand::Close => "/close"@,
        }
    }

    /// What the relay is sent.
    pub fn text(self) -> (command: &'static str)
        ensures
            command@ == self.spec_text(),
    {
        match self {
            MenuCommand::Part => "/part",
            MenuCommand::Hide => "/buffer hide",
            MenuCommand::Unhide => "/buffer unhide",
            MenuCommand::Close => "/close",
        }
    }
}

// ---------------------------------------------------------------------------
// Beside the list
// ---------------------------------------------------------------------------

/// What stands on the right-hand side.
#[derive(Debug, Clone, Copy, PartialEq, Eq, Structural)]
pub enum RightPanelKind {
    Empty,
    Thread,
    Nicklist,
}

impl AppView {
    pub open spec fn right_panel(self, show_nicklist: bool, connected: bool) -> RightPanelKind {
        if self.open_thread_buffer_id is Some {
            RightPanelKind::Thread
        } else if show_nicklist && connected && self.selected_buffer_id is Some && buffer_of(
            self.buffers,
            self.selected_buffer_id->0,
        ) is Some && buffer_of(self.buffers, self.selected_buffer_id->0)->0.has_nicklist {
            RightPanelKind::Nicklist
        } else {
            RightPanelKind::Empty
        }
    }
}

impl WeeChatApp {
    /// What stands on the right-hand side: an open thread, or else the nicks.
    pub fn right_panel_kind(&self, show_nicklist: bool, connected: bool) -> (kind: RightPanelKind)
        requires
            self.wf(),
        ensures
            kind == self@.right_panel(show_nicklist, connected),
    {
        if self.open_thread_buffer_id.is_some() {
            return RightPanelKind::Thread;
        }
        let listed = match &self.selected_buffer_id {
            Some(id) => match self.buffer_by_id(id.as_str()) {
                Some(b) => b.has_nicklist,
                None => false,
            },
            None => false,
        };
        if show_nicklist && connected && listed {
            RightPanelKind::Nicklist
        } else {
            RightPanelKind::Empty
        }
    }
}

} // verus!
