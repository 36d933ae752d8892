//! The panels around a conversation: the open thread, the nicks, the profile
//! card, the connection log and the composer.
use vstd::prelude::*;
use vstd::string::StringExecFns;
use std::collections::VecDeque;
use crate::history::{auto_requests, should_auto_request_history};
use crate::media::{hash_nick, nick_color};
use crate::mentions::mention_label;
use crate::models::{
    opt_view, Buffer, BufferView, CandidateView, Line, LineView, MatrixMemberProfile,
    MentionCandidate, Nick, NickView, ProfileView,
};
use crate::people::{
    matrix_profile_for_nick, matrix_user_id_for_nick, profile_for_nick, user_id_for_nick, CardView,
    ClusterView, IdentityView, MatrixNickCluster, MatrixProfileIdentity, UserProfileCard,
};
use crate::seqs::{first_from, first_index, keep_items, lemma_filter_take, views};
use crate::state::{
    buffer_of, AppView, RedactionTarget, ReplyTarget, SelectedMention, SelectedMentionView,
    TargetView, WeeChatApp,
};
use crate::text::{
    chars_of, clone_opt, contains, decimal, is_space, is_whitespace, join2, join3, opt_is, opt_text,
    same_opt, same_text, starts_with, str_contains, str_starts_with, texts, u64_text,
};
use crate::threads::{
    live_thread, live_thread_buffer_id, stable_snapshot, stable_thread_snapshot, ContentView,
    ThreadMessageBlock,
};

verus! {

// ---------------------------------------------------------------------------
// The open thread
// ---------------------------------------------------------------------------

impl AppView {
    /// The Matrix room on view.
    pub open spec fn viewed_room(self) -> Option<Seq<char>> {
        match self.selected_buffer_id {
            Some(id) => match buffer_of(self.buffers, id) {
                Some(b) => b.matrix_room_id,
                None => None,
            },
            None => None,
        }
    }

    /// The state without an open thread of another room.
    pub open spec fn foreign_thread_closed(self) -> AppView {
        if self.open_thread_snapshot is Some && self.open_thread_snapshot->0.matrix_room_id
            != self.viewed_room() {
            self.closing_thread()
        } else {
            self
        }
    }

    /// The state with the open thread found again under its present id.
    pub open spec fn thread_followed(self) -> AppView {
        AppView {
            open_thread_buffer_id: if self.open_thread_buffer_id is Some {
                match live_thread(
                    self.buffers,
                    self.open_thread_buffer_id,
                    self.open_thread_snapshot,
                ) {
                    Some(id) => Some(id),
                    None => self.open_thread_buffer_id,
                }
            } else {
                None
            },
            ..self
        }
    }

    /// The buffer of the open thread, where it belongs to the room on view.
    pub open spec fn live_thread_buffer(self) -> Option<BufferView> {
        match self.open_thread_buffer_id {
            Some(id) => match buffer_of(self.buffers, id) {
                Some(b) => if b.is_thread() && b.matrix_room_id == self.viewed_room() {
                    Some(b)
                } else {
                    None
                },
                None => None,
            },
            None => None,
        }
    }

    /// The state with a new picture of the open thread.
    pub open spec fn thread_pictured(self) -> AppView {
        AppView {
            open_thread_snapshot: if self.open_thread_buffer_id is Some {
                stable_snapshot(self.live_thread_buffer(), self.open_thread_snapshot)
            } else {
                self.open_thread_snapshot
            },
            ..self
        }
    }

    /// The state with the open thread brought up to date.
    pub open spec fn thread_refreshed(self) -> AppView {
        self.foreign_thread_closed().thread_followed().thread_pictured()
    }
}

impl WeeChatApp {
    fn viewed_room_of(&self) -> (room: Option<String>)
        requires
            self.wf(),
        ensures
            opt_text(room) == self@.viewed_room(),
    {
        match &self.selected_buffer_id {
            Some(id) => match self.buffer_by_id(id.as_str()) {
                Some(b) => clone_opt(&b.matrix_room_id),
                None => None,
            },
            None => None,
        }
    }

    fn close_foreign_thread(&mut self)
        requires
            old(self).wf(),
        ensures
            final(self).wf(),
            final(self)@ == old(self)@.foreign_thread_closed(),
    {
        let room = self.viewed_room_of();
        let foreign = match &self.open_thread_snapshot {
            Some(thread) => !same_opt(&thread.matrix_room_id, &room),
            None => false,
        };
        if foreign {
            self.close_thread();
        }
    }

    fn live_thread_of(&self) -> (live: Option<String>)
        ensures
            opt_text(live) == (if self@.open_thread_buffer_id is Some {
                live_thread(
                    self@.buffers,
                    self@.open_thread_buffer_id,
                    self@.open_thread_snapshot,
                )
            } else {
                None
            }),
    {
        match &self.open_thread_buffer_id {
            Some(id) => live_thread_buffer_id(
                &self.buffers,
                Some(id.as_str()),
                match &self.open_thread_snapshot {
                    Some(b) => Some(b),
                    None => None,
                },
            ),
            None => None,
        }
    }

    fn set_open_thread(&mut self, id: String)
        ensures
            final(self)@ == (AppView { open_thread_buffer_id: Some(id@), ..old(self)@ }),
            old(self).wf() ==> final(self).wf(),
    {
        let ghost before = self@;
        self.open_thread_buffer_id = Some(id);
        assert(self@.buffers == before.buffers);
    }

    fn follow_thread(&mut self)
        requires
            old(self).wf(),
        ensures
            final(self).wf(),
            final(self)@ == old(self)@.thread_followed(),
    {
        match self.live_thread_of() {
            Some(id) => {
                self.set_open_thread(id);
            },
            None => {},
        }
    }

    fn picture_of_thread(&self) -> (picture: Option<Buffer>)
        requires
            self.wf(),
            self@.open_thread_buffer_id is Some,
        ensures
            opt_view(picture) == stable_snapshot(
                self@.live_thread_buffer(),
                self@.open_thread_snapshot,
            ),
    {
        let room = self.viewed_room_of();
        let live = match &self.open_thread_buffer_id {
            Some(id) => match self.buffer_by_id(id.as_str()) {
                Some(b) => if b.is_matrix_thread() && same_opt(&b.matrix_room_id, &room) {
                    Some(b)
                } else {
                    None
                },
                None => None,
            },
            None => None,
        };
        stable_thread_snapshot(
            live,
            match &self.open_thread_snapshot {
                Some(b) => Some(b),
                None => None,
            },
        )
    }

    fn picture_thread(&mut self)
        requires
            old(self).wf(),
        ensures
            final(self).wf(),
            final(self)@ == old(self)@.thread_pictured(),
    {
        if self.open_thread_buffer_id.is_none() {
            return ;
        }
        let picture = self.picture_of_thread();
        let ghost before = self@;
        self.open_thread_snapshot = picture;
        assert(self@.buffers == before.buffers);
    }

    /// Brings the open thread up to date: it is closed when another room comes
    /// into view, found again when the relay gives it a new id, and keeps its
    /// last picture while its lines are fetched anew.
    pub fn refresh_open_thread(&mut self)
        requires
            old(self).wf(),
        ensures
            final(self).wf(),
            final(self)@ == old(self)@.thread_refreshed(),
    {
        self.close_foreign_thread();
        self.follow_thread();
        self.picture_thread();
    }
}

/// A thread that is shown belongs to the room on view.
pub proof fn shown_thread_belongs_to_the_room(state: AppView)
    ensures
        state.thread_refreshed().open_thread_snapshot is Some
            ==> state.thread_refreshed().open_thread_snapshot->0.matrix_room_id
            == state.viewed_room(),
{
}

// ---------------------------------------------------------------------------
// Nicks and profiles
// ---------------------------------------------------------------------------

/// The row of a nick of a network without user ids.
pub open spec fn plain_cluster(nick: NickView) -> ClusterView {
    ClusterView { display_name: nick.name, members: seq![nick], user_ids: Seq::empty() }
}

/// The rows of the nicks of a network without user ids.
pub fn plain_clusters(nicks: &Vec<Nick>) -> (clusters: Vec<MatrixNickCluster>)
    ensures
        views(clusters@) == views(nicks@).map_values(|n: NickView| plain_cluster(n)),
{
    let mut clusters: Vec<MatrixNickCluster> = Vec::new();
    let mut i: usize = 0;
    while i < nicks.len()
        invariant
            i <= nicks@.len(),
            clusters@.len() == i,
            forall|j: int|
                0 <= j < i ==> (#[trigger] clusters@[j])@ == plain_cluster(nicks@[j]@),
        decreases nicks@.len() - i,
    {
        let mut members: Vec<Nick> = Vec::new();
        members.push(nicks[i].clone());
        let cluster = MatrixNickCluster {
            display_name: nicks[i].name.clone(),
            members,
            user_ids: Vec::new(),
        };
        assert(cluster@.members =~= seq![nicks@[i as int]@]);
        assert(cluster@.user_ids =~= Seq::empty());
        clusters.push(cluster);
        i = i + 1;
    }
    assert(views(clusters@) =~= views(nicks@).map_values(|n: NickView| plain_cluster(n)));
    clusters
}

/// How nicks are coloured.
#[derive(Debug, Clone, Copy, PartialEq, Eq, Structural)]
pub enum NickColors {
    /// Not at all.
    Plain,
    /// As the relay says.
    Relay,
    /// By their names.
    Hashed,
}

/// The escape sequence of a colour between 1 and 15.
pub open spec fn color_escape(color: u8) -> Seq<char> {
    "\x1B["@ + decimal(
        if color < 8 {
            (30 + color) as nat
        } else {
            (82 + color) as nat
        },
    ) + "m"@
}

/// A nick as the list of nicks shows it. Somebody who is away has no colour.
pub open spec fn nick_line(nick: NickView, display_name: Seq<char>, colors: NickColors) -> Seq<char> {
    let text = nick.prefix + display_name;
    if nick.away {
        text
    } else {
        match colors {
            NickColors::Plain => text,
            NickColors::Relay => nick.color_ansi + text,
            NickColors::Hashed => color_escape(nick_color(display_name) as u8) + text,
        }
    }
}

/// A nick as the list of nicks shows it.
pub fn nick_text(nick: &Nick, display_name: &str, colors: NickColors) -> (text: String)
    ensures
        text@ == nick_line(nick@, display_name@, colors),
{
    let text = join2(nick.prefix.as_str(), display_name);
    if nick.away {
        return text;
    }
    match colors {
        NickColors::Plain => text,
        NickColors::Relay => join2(nick.color_ansi.as_str(), text.as_str()),
        NickColors::Hashed => {
            let color: u8 = hash_nick(display_name);
            let code: u64 = if color < 8 {
                30 + color as u64
            } else {
                82 + color as u64
            };
            let digits = u64_text(code);
            let escape = join3("\x1B[", digits.as_str(), "m");
            join2(escape.as_str(), text.as_str())
        },
    }
}

/// The member of a row whose avatar stands for it.
pub open spec fn avatar_nick(c: ClusterView, profiles: Seq<ProfileView>) -> Seq<char> {
    match first_index(
        c.members,
        |n: NickView|
            profile_for_nick(profiles, n.name) is Some && profile_for_nick(
                profiles,
                n.name,
            )->0.avatar_mxc is Some,
    ) {
        Some(i) => c.members[i].name,
        None => c.display_name,
    }
}

/// The member of a row whose avatar stands for it: the first that has one.
pub fn avatar_nick_of(cluster: &MatrixNickCluster, profiles: &Vec<MatrixMemberProfile>) -> (nick:
    String)
    ensures
        nick@ == avatar_nick(cluster@, views(profiles@)),
{
    let ghost all = views(cluster.members@);
    let ghost p = |n: NickView|
        profile_for_nick(views(profiles@), n.name) is Some && profile_for_nick(
            views(profiles@),
            n.name,
        )->0.avatar_mxc is Some;
    let mut i: usize = 0;
    while i < cluster.members.len()
        invariant
            i <= cluster.members@.len(),
            all == views(cluster.members@),
            p == (|n: NickView|
                profile_for_nick(views(profiles@), n.name) is Some && profile_for_nick(
                    views(profiles@),
                    n.name,
                )->0.avatar_mxc is Some),
            first_index(all, p) == first_from(all, p, i as int),
        decreases cluster.members@.len() - i,
    {
        assert(all[i as int] == cluster.members@[i as int]@);
        let has_avatar = match matrix_profile_for_nick(profiles, cluster.members[i].name.as_str()) {
            Some(profile) => profile.avatar_mxc.is_some(),
            None => false,
        };
        if has_avatar {
            return cluster.members[i].name.clone();
        }
        i = i + 1;
    }
    cluster.display_name.clone()
}

/// The accounts behind a row.
pub open spec fn identities(c: ClusterView, profiles: Seq<ProfileView>) -> Seq<IdentityView> {
    Seq::new(
        if c.members.len() <= c.user_ids.len() {
            c.members.len()
        } else {
            c.user_ids.len()
        },
        |i: int|
            IdentityView {
                user_id: c.user_ids[i],
                profile: profile_for_nick(profiles, c.members[i].name),
            },
    )
}

/// The profile that a card shows first: one with an avatar, or else the first.
pub open spec fn leading_profile(list: Seq<IdentityView>) -> Option<ProfileView> {
    match first_index(
        list,
        |d: IdentityView| d.profile is Some && d.profile->0.avatar_mxc is Some,
    ) {
        Some(i) => list[i].profile,
        None => match first_index(list, |d: IdentityView| d.profile is Some) {
            Some(i) => list[i].profile,
            None => None,
        },
    }
}

/// The card of a row of the list of nicks.
pub open spec fn cluster_card(
    c: ClusterView,
    buffer_id: Seq<char>,
    server: Seq<char>,
    is_matrix: bool,
    profiles: Seq<ProfileView>,
    candidates: Seq<CandidateView>,
) -> CardView {
    let list = identities(c, profiles);
    CardView {
        buffer_id,
        nick: c.display_name,
        prefix: c.members[0].prefix,
        server,
        is_matrix,
        matrix_user_id: if c.user_ids.len() > 0 {
            Some(c.user_ids[0])
        } else {
            user_id_for_nick(candidates, c.members[0].name)
        },
        matrix: match leading_profile(list) {
            Some(profile) => Some(profile),
            None => profile_for_nick(profiles, c.members[0].name),
        },
        matrix_identities: list,
    }
}

fn identities_of(cluster: &MatrixNickCluster, profiles: &Vec<MatrixMemberProfile>) -> (list: Vec<
    MatrixProfileIdentity,
>)
    ensures
        views(list@) == identities(cluster@, views(profiles@)),
{
    let mut list: Vec<MatrixProfileIdentity> = Vec::new();
    let mut i: usize = 0;
    while i < cluster.members.len() && i < cluster.user_ids.len()
        invariant
            i <= cluster.members@.len(),
            i <= cluster.user_ids@.len(),
            list@.len() == i,
            forall|j: int|
                0 <= j < i ==> (#[trigger] list@[j])@ == (IdentityView {
                    user_id: cluster.user_ids@[j]@,
                    profile: profile_for_nick(views(profiles@), cluster.members@[j]@.name),
                }),
        decreases cluster.members@.len() - i,
    {
        list.push(
            MatrixProfileIdentity {
                user_id: cluster.user_ids[i].clone(),
                profile: matrix_profile_for_nick(profiles, cluster.members[i].name.as_str()),
            },
        );
        i = i + 1;
    }
    assert(views(list@) =~= identities(cluster@, views(profiles@)));
    list
}

fn leading_profile_of(list: &Vec<MatrixProfileIdentity>) -> (profile: Option<MatrixMemberProfile>)
    ensures
        opt_view(profile) == leading_profile(views(list@)),
{
    let ghost all = views(list@);
    let ghost with_avatar = |d: IdentityView|
        d.profile is Some && d.profile->0.avatar_mxc is Some;
    let ghost with_profile = |d: IdentityView| d.profile is Some;
    let mut i: usize = 0;
    while i < list.len()
        invariant
            i <= list@.len(),
            all == views(list@),
            with_avatar == (|d: IdentityView|
                d.profile is Some && d.profile->0.avatar_mxc is Some),
            first_index(all, with_avatar) == first_from(all, with_avatar, i as int),
        decreases list@.len() - i,
    {
        assert(all[i as int] == list@[i as int]@);
        match &list[i].profile {
            Some(profile) => {
                if profile.avatar_mxc.is_some() {
                    return Some(profile.clone());
                }
            },
            None => {},
        }
        i = i + 1;
    }
    let mut k: usize = 0;
    while k < list.len()
        invariant
            k <= list@.len(),
            all == views(list@),
            with_profile == (|d: IdentityView| d.profile is Some),
            first_index(all, with_profile) == first_from(all, with_profile, k as int),
            first_index(
                all,
                |d: IdentityView| d.profile is Some && d.profile->0.avatar_mxc is Some,
            ) is None,
        decreases list@.len() - k,
    {
        assert(all[k as int] == list@[k as int]@);
        match &list[k].profile {
            Some(profile) => {
                return Some(profile.clone());
            },
            None => {},
        }
        k = k + 1;
    }
    None
}

/// The card of a row of the list of nicks.
pub fn cluster_profile_card(
    cluster: &MatrixNickCluster,
    buffer_id: &str,
    server: &str,
    is_matrix: bool,
    profiles: &Vec<MatrixMemberProfile>,
    candidates: &Vec<MentionCandidate>,
) -> (card: UserProfileCard)
    requires
        cluster@.members.len() > 0,
    ensures
        card@ == cluster_card(
            cluster@,
            buffer_id@,
            server@,
            is_matrix,
            views(profiles@),
            views(candidates@),
        ),
{
    assert(cluster@.members[0] == cluster.members@[0]@);
    let nick = &cluster.members[0];
    let list = identities_of(cluster, profiles);
    let matrix = match leading_profile_of(&list) {
        Some(profile) => Some(profile),
        None => matrix_profile_for_nick(profiles, nick.name.as_str()),
    };
    let matrix_user_id = if cluster.user_ids.len() > 0 {
        assert(cluster@.user_ids[0] == cluster.user_ids@[0]@);
        Some(cluster.user_ids[0].clone())
    } else {
        matrix_user_id_for_nick(candidates, nick.name.as_str())
    };
    UserProfileCard {
        buffer_id: buffer_id.to_owned(),
        nick: cluster.display_name.clone(),
        prefix: nick.prefix.clone(),
        server: server.to_owned(),
        is_matrix,
        matrix_user_id,
        matrix,
        matrix_identities: list,
    }
}

/// The person that a card mentions: a display name and a user id.
pub open spec fn card_person(card: CardView) -> Option<CandidateView> {
    let user_id = if card.matrix is Some {
        Some(card.matrix->0.user_id)
    } else {
        card.matrix_user_id
    };
    match user_id {
        Some(user_id) => Some(
            CandidateView {
                display_name: if card.matrix is Some {
                    card.matrix->0.display_name
                } else {
                    card.nick
                },
                user_id,
            },
        ),
        None => None,
    }
}

/// The person that a card mentions.
pub fn card_mention(card: &UserProfileCard) -> (person: Option<MentionCandidate>)
    ensures
        opt_view(person) == card_person(card@),
{
    match &card.matrix {
        Some(profile) => Some(
            MentionCandidate {
                display_name: profile.display_name.clone(),
                user_id: profile.user_id.clone(),
            },
        ),
        None => match &card.matrix_user_id {
            Some(user_id) => Some(
                MentionCandidate { display_name: card.nick.clone(), user_id: user_id.clone() },
            ),
            None => None,
        },
    }
}

/// The person that one of several identities on a card mentions: under the name
/// in its profile, or under the nick of the card.
pub open spec fn identity_person(identity: IdentityView, nick: Seq<char>) -> CandidateView {
    CandidateView {
        display_name: match identity.profile {
            Some(profile) => profile.display_name,
            None => nick,
        },
        user_id: identity.user_id,
    }
}

pub fn identity_mention(identity: &MatrixProfileIdentity, nick: &str) -> (person: MentionCandidate)
    ensures
        person@ == identity_person(identity@, nick@),
{
    MentionCandidate {
        display_name: match &identity.profile {
            Some(profile) => profile.display_name.clone(),
            None => nick.to_owned(),
        },
        user_id: identity.user_id.clone(),
    }
}

impl AppView {
    /// The state with a person mentioned at the end of the input.
    pub open spec fn mentioning(self, c: CandidateView) -> AppView {
        let label = mention_label(c);
        let gap = if self.input_text.len() > 0 && !is_space(self.input_text.last()) {
            " "@
        } else {
            Seq::empty()
        };
        AppView {
            input_text: self.input_text + gap + label + " "@,
            selected_mentions: self.selected_mentions.filter(
                |m: SelectedMentionView| m.user_id != c.user_id && m.label != label,
            ).push(SelectedMentionView { label, user_id: c.user_id }),
            focus_input: true,
            ..self
        }
    }
}

fn mentioned_text(input: &str, label: &str) -> (text: String)
    ensures
        text@ == input@ + (if input@.len() > 0 && !is_space(input@.last()) {
            " "@
        } else {
            Seq::empty()
        }) + label@ + " "@,
{
    proof {
        reveal_strlit("");
        assert(""@ =~= Seq::empty());
    }
    let chars = chars_of(input);
    let n: usize = chars.len();
    let gap = if n > 0 && !is_whitespace(chars[n - 1]) {
        " "
    } else {
        ""
    };
    let head = join3(input, gap, label);
    join2(head.as_str(), " ")
}

impl WeeChatApp {
    fn keep_mention(&mut self, label: String, user_id: String)
        ensures
            final(self)@ == (AppView {
                selected_mentions: old(self)@.selected_mentions.filter(
                    |m: SelectedMentionView| m.user_id != user_id@ && m.label != label@,
                ).push(SelectedMentionView { label: label@, user_id: user_id@ }),
                focus_input: true,
                ..old(self)@
            }),
            old(self).wf() ==> final(self).wf(),
    {
        let ghost before = self@;
        let l = label.as_str();
        let u = user_id.as_str();
        let keep = |m: &SelectedMention| -> (r: bool)
            ensures
                r == (m@.user_id != u@ && m@.label != l@),
            { !same_text(m.user_id.as_str(), u) && !same_text(m.label.as_str(), l) };
        let mut mentions: Vec<SelectedMention> = Vec::new();
        core::mem::swap(&mut mentions, &mut self.selected_mentions);
        let mut kept = keep_items(
            mentions,
            keep,
            Ghost(|m: SelectedMentionView| m.user_id != user_id@ && m.label != label@),
        );
        let ghost others = kept@;
        kept.push(SelectedMention { label, user_id });
        assert(views(kept@) =~= views(others).push(
            SelectedMentionView { label: label@, user_id: user_id@ },
        ));
        self.selected_mentions = kept;
        self.focus_input = true;
        assert(self@.buffers == before.buffers);
    }

    /// Mentions a person at the end of the input.
    pub fn mention_person(&mut self, person: &MentionCandidate)
        ensures
            final(self)@ == old(self)@.mentioning(person@),
            old(self).wf() ==> final(self).wf(),
    {
        let label = if str_starts_with(person.display_name.as_str(), "@") {
            person.display_name.clone()
        } else {
            join2("@", person.display_name.as_str())
        };
        let text = mentioned_text(self.input_text.as_str(), label.as_str());
        let ghost before = self@;
        self.input_text = text;
        assert(self@.buffers == before.buffers);
        self.keep_mention(label, person.user_id.clone());
    }
}

// ---------------------------------------------------------------------------
// Answering and deleting
// ---------------------------------------------------------------------------

/// Whether a line can be answered or deleted: it is a Matrix event of the room
/// itself, and the room was not replaced.
pub open spec fn is_answerable(line: LineView, is_inherited: bool, is_replaced: bool) -> bool {
    line.matrix_event_id is Some && !is_inherited && !is_replaced
}

/// What an answer to a line goes to.
pub fn reply_target_for(line: &Line, buffer_id: &str, is_inherited: bool, is_replaced: bool) -> (target:
    Option<ReplyTarget>)
    ensures
        match target {
            Some(t) => is_answerable(line@, is_inherited, is_replaced) && t@ == (TargetView {
                buffer_id: buffer_id@,
                matrix_event_id: line@.matrix_event_id->0,
                sender: line@.plain_prefix,
                message: line@.plain_message,
            }),
            None => !is_answerable(line@, is_inherited, is_replaced),
        },
{
    if is_inherited || is_replaced {
        return None;
    }
    match &line.matrix_event_id {
        Some(event_id) => Some(
            ReplyTarget {
                buffer_id: buffer_id.to_owned(),
                matrix_event_id: event_id.clone(),
                sender: line.plain_prefix.clone(),
                message: line.plain_message.clone(),
            },
        ),
        None => None,
    }
}

/// The first line of an event that carries media.
pub open spec fn media_name(messages: Seq<LineView>, event_id: Seq<char>) -> Option<Seq<char>> {
    match first_index(
        messages,
        |l: LineView| l.matrix_event_id == Some(event_id) && l.matrix_media is Some,
    ) {
        Some(i) => Some(messages[i].matrix_media->0.name),
        None => None,
    }
}

fn media_name_of(messages: &VecDeque<Line>, event_id: &str) -> (name: Option<String>)
    ensures
        opt_text(name) == media_name(views(messages@), event_id@),
{
    let ghost all = views(messages@);
    let ghost p = |l: LineView| l.matrix_event_id == Some(event_id@) && l.matrix_media is Some;
    let mut i: usize = 0;
    while i < messages.len()
        invariant
            i <= messages@.len(),
            all == views(messages@),
            p == (|l: LineView| l.matrix_event_id == Some(event_id@) && l.matrix_media is Some),
            first_index(all, p) == first_from(all, p, i as int),
        decreases messages@.len() - i,
    {
        assert(all[i as int] == messages@[i as int]@);
        if opt_is(&messages[i].matrix_event_id, event_id) {
            match &messages[i].matrix_media {
                Some(media) => {
                    return Some(media.name.clone());
                },
                None => {},
            }
        }
        i = i + 1;
    }
    None
}

/// What is asked about before a line is deleted. The event is named by its
/// media, where it has any, and otherwise by its text.
pub fn redaction_target_for(
    messages: &VecDeque<Line>,
    line: &Line,
    buffer_id: &str,
    is_inherited: bool,
    is_replaced: bool,
) -> (target: Option<RedactionTarget>)
    ensures
        match target {
            Some(t) => is_answerable(line@, is_inherited, is_replaced) && t@ == (TargetView {
                buffer_id: buffer_id@,
                matrix_event_id: line@.matrix_event_id->0,
                sender: line@.plain_prefix,
                message: match media_name(views(messages@), line@.matrix_event_id->0) {
                    Some(name) => name,
                    None => line@.plain_message,
                },
            }),
            None => !is_answerable(line@, is_inherited, is_replaced),
        },
{
    if is_inherited || is_replaced {
        return None;
    }
    match &line.matrix_event_id {
        Some(event_id) => Some(
            RedactionTarget {
                buffer_id: buffer_id.to_owned(),
                matrix_event_id: event_id.clone(),
                sender: line.plain_prefix.clone(),
                message: match media_name_of(messages, event_id.as_str()) {
                    Some(name) => name,
                    None => line.plain_message.clone(),
                },
            },
        ),
        None => None,
    }
}

/// What a message of a thread is called before it is deleted.
pub open spec fn block_title(content: Seq<ContentView>) -> Seq<char> {
    match first_index(content, |c: ContentView| c.media is Some) {
        Some(i) => content[i].media->0.name,
        None => match first_index(content, |c: ContentView| c.message.len() > 0) {
            Some(i) => content[i].message,
            None => "attachment"@,
        },
    }
}

fn block_title_of(block: &ThreadMessageBlock) -> (title: String)
    ensures
        title@ == block_title(block@.content),
{
    let ghost all = views(block.content@);
    let ghost with_media = |c: ContentView| c.media is Some;
    let ghost with_text = |c: ContentView| c.message.len() > 0;
    let mut i: usize = 0;
    while i < block.content.len()
        invariant
            i <= block.content@.len(),
            all == views(block.content@),
            with_media == (|c: ContentView| c.media is Some),
            first_index(all, with_media) == first_from(all, with_media, i as int),
        decreases block.content@.len() - i,
    {
        assert(all[i as int] == block.content@[i as int]@);
        match &block.content[i].media {
            Some(media) => {
                return media.name.clone();
            },
            None => {},
        }
        i = i + 1;
    }
    let mut k: usize = 0;
    while k < block.content.len()
        invariant
            k <= block.content@.len(),
            all == views(block.content@),
            with_text == (|c: ContentView| c.message.len() > 0),
            first_index(all, with_text) == first_from(all, with_text, k as int),
            first_index(all, |c: ContentView| c.media is Some) is None,
        decreases block.content@.len() - k,
    {
        assert(all[k as int] == block.content@[k as int]@);
        if !block.content[k].message.as_str().is_empty() {
            return block.content[k].message.clone();
        }
        k = k + 1;
    }
    "attachment".to_owned()
}

/// What is asked about before a message of a thread is deleted.
pub fn thread_redaction_target(block: &ThreadMessageBlock, thread_id: &str) -> (target: Option<
    RedactionTarget,
>)
    ensures
        match target {
            Some(t) => block@.matrix_event_id is Some && t@ == (TargetView {
                buffer_id: thread_id@,
                matrix_event_id: block@.matrix_event_id->0,
                sender: block@.prefix,
                message: block_title(block@.content),
            }),
            None => block@.matrix_event_id is None,
        },
{
    match &block.matrix_event_id {
        Some(event_id) => Some(
            RedactionTarget {
                buffer_id: thread_id.to_owned(),
                matrix_event_id: event_id.clone(),
                sender: block.prefix.clone(),
                message: block_title_of(block),
            },
        ),
        None => None,
    }
}

impl WeeChatApp {
    /// Asks before a message is deleted.
    pub fn ask_redaction(&mut self, target: Option<RedactionTarget>)
        ensures
            final(self)@ == (AppView {
                pending_redaction: opt_view(target),
                pending_redaction_error: None,
                ..old(self)@
            }),
            old(self).wf() ==> final(self).wf(),
    {
        let ghost before = self@;
        self.pending_redaction_error = None;
        self.pending_redaction = target;
        assert(self@.buffers == before.buffers);
    }

    /// Begins an answer.
    pub fn begin_reply(&mut self, target: ReplyTarget)
        ensures
            final(self)@ == (AppView {
                reply_target: Some(target@),
                focus_input: true,
                ..old(self)@
            }),
            old(self).wf() ==> final(self).wf(),
    {
        let ghost before = self@;
        self.reply_target = Some(target);
        self.focus_input = true;
        assert(self@.buffers == before.buffers);
    }

    /// The answer that the composer is writing, where it goes to the buffer on
    /// view.
    pub fn shown_reply(&self) -> (reply: Option<&ReplyTarget>)
        ensures
            match reply {
                Some(r) => self@.reply_target == Some(r@) && self@.selected_buffer_id == Some(
                    r@.buffer_id,
                ),
                None => self@.reply_target is None || self@.selected_buffer_id != Some(
                    self@.reply_target->0.buffer_id,
                ),
            },
    {
        match &self.reply_target {
            Some(reply) => if opt_is(&self.selected_buffer_id, reply.buffer_id.as_str()) {
                Some(reply)
            } else {
                None
            },
            None => None,
        }
    }
}

// ---------------------------------------------------------------------------
// The composer
// ---------------------------------------------------------------------------

/// What an empty composer says.
pub fn composer_hint(is_connected: bool, kind: &str) -> (hint: &'static str)
    ensures
        hint@ == (if !is_connected {
            "Disconnected — reconnect before sending"@
        } else if kind@ == "server"@ {
            "Type /join #channel or any IRC command..."@
        } else {
            "Type a message..."@
        }),
{
    if !is_connected {
        "Disconnected — reconnect before sending"
    } else if same_text(kind, "server") {
        "Type /join #channel or any IRC command..."
    } else {
        "Type a message..."
    }
}

impl WeeChatApp {
    /// Whether the state of a file share stands beside the composer of the
    /// thread, and whether it stands beside that of the room.
    pub fn file_share_owners(&self) -> (owners: (bool, bool))
        ensures
            owners.0 == (self@.file_share_target_buffer_id == self@.open_thread_buffer_id),
            owners.1 == (self@.file_share_target_buffer_id is None
                || self@.file_share_target_buffer_id == self@.selected_buffer_id),
    {
        (
            same_opt(&self.file_share_target_buffer_id, &self.open_thread_buffer_id),
            self.file_share_target_buffer_id.is_none() || same_opt(
                &self.file_share_target_buffer_id,
                &self.selected_buffer_id,
            ),
        )
    }
}

pub open spec fn popup_title(context: Seq<char>, count: nat) -> Seq<char> {
    (if context == "command"@ {
        "COMMANDS · "@
    } else {
        "ARGUMENTS · "@
    }) + decimal(count)
}

/// The title of the list of completions.
pub fn completion_title(context: &str, count: usize) -> (title: String)
    ensures
        title@ == popup_title(context@, count as nat),
{
    let n = u64_text(count as u64);
    join2(
        if same_text(context, "command") {
            "COMMANDS · "
        } else {
            "ARGUMENTS · "
        },
        n.as_str(),
    )
}

/// An entry of the list of completions: a command stands with its slash.
pub fn completion_label(context: &str, candidate: &str) -> (label: String)
    ensures
        label@ == (if context@ == "command"@ && !starts_with(candidate@, "/"@) {
            "/"@ + candidate@
        } else {
            candidate@
        }),
{
    if same_text(context, "command") && !str_starts_with(candidate, "/") {
        join2("/", candidate)
    } else {
        candidate.to_owned()
    }
}

// ---------------------------------------------------------------------------
// The connection log
// ---------------------------------------------------------------------------

/// What an entry of the log tells.
#[derive(Debug, Clone, Copy, PartialEq, Eq, Structural)]
pub enum LogTone {
    Bad,
    Good,
    Neutral,
}

pub open spec fn log_tone(entry: Seq<char>) -> LogTone {
    if contains(entry, "Error"@) || contains(entry, "failed"@) || contains(entry, "Disconnected"@) {
        LogTone::Bad
    } else if contains(entry, "Connected"@) {
        LogTone::Good
    } else {
        LogTone::Neutral
    }
}

/// What an entry of the log tells.
pub fn log_tone_of(entry: &str) -> (tone: LogTone)
    ensures
        tone == log_tone(entry@),
{
    if str_contains(entry, "Error") || str_contains(entry, "failed") || str_contains(
        entry,
        "Disconnected",
    ) {
        LogTone::Bad
    } else if str_contains(entry, "Connected") {
        LogTone::Good
    } else {
        LogTone::Neutral
    }
}

impl AppView {
    /// The state with the connection log shown or put away.
    pub open spec fn log_toggled(self) -> AppView {
        AppView {
            show_connection_log: !self.show_connection_log,
            connection_log_unread: false,
            ..self
        }
    }
}

impl WeeChatApp {
    /// Shows the connection log or puts it away.
    pub fn toggle_connection_log(&mut self)
        ensures
            final(self)@ == old(self)@.log_toggled(),
            old(self).wf() ==> final(self).wf(),
    {
        let ghost before = self@;
        self.show_connection_log = !self.show_connection_log;
        self.connection_log_unread = false;
        assert(self@.buffers == before.buffers);
    }

    /// The connection whose log is shown.
    pub fn shown_log(&self) -> (at: Option<usize>)
        ensures
            match at {
                Some(i) => i < self.connections@.len() && self@.selected_conn_log is Some
                    && crate::state::connection_place(
                    self@.connections,
                    self@.selected_conn_log->0,
                ) == Some(i as int),
                None => self@.selected_conn_log is None || !self@.has_connection(
                    self@.selected_conn_log->0,
                ),
            },
    {
        match &self.selected_conn_log {
            Some(prefix) => self.connection_idx_of(prefix.as_str()),
            None => None,
        }
    }
}

// ---------------------------------------------------------------------------
// Older messages
// ---------------------------------------------------------------------------

/// What the place in a conversation asks for.
#[derive(Debug, Clone, Copy, PartialEq, Eq, Structural)]
pub enum ScrollStep {
    Nothing,
    /// The upper edge asks for more again when it is reached.
    Arm,
    Load,
}

impl AppView {
    /// What the place in a conversation asks for: more lines at its upper edge,
    /// where none are on their way and there are any.
    pub open spec fn scroll_step(
        self,
        view_id: Seq<char>,
        lines: int,
        has_older: bool,
        at_top: bool,
        away_from_top: bool,
    ) -> ScrollStep {
        if away_from_top {
            ScrollStep::Arm
        } else if at_top && self.loading_more_buffer_id is None && has_older && auto_requests(
            lines,
            self.history_request_counts.contains_key(view_id),
            self.history_top_armed_buffer_ids.contains(view_id),
        ) {
            ScrollStep::Load
        } else {
            ScrollStep::Nothing
        }
    }
}

impl WeeChatApp {
    /// What the place in a conversation asks for.
    pub fn scroll_step(
        &self,
        view_id: &str,
        lines: usize,
        has_older: bool,
        at_top: bool,
        away_from_top: bool,
    ) -> (step: ScrollStep)
        ensures
            step == self@.scroll_step(view_id@, lines as int, has_older, at_top, away_from_top),
    {
        if away_from_top {
            ScrollStep::Arm
        } else if at_top && self.loading_more_buffer_id.is_none() && has_older
            && should_auto_request_history(
            lines,
            self.history_request_counts.contains_key(view_id),
            self.history_top_armed_buffer_ids.contains(view_id),
        ) {
            ScrollStep::Load
        } else {
            ScrollStep::Nothing
        }
    }

    /// Lets the upper edge of a conversation ask for more when it is reached.
    pub fn arm_history_top(&mut self, id: String)
        ensures
            final(self)@ == (AppView {
                history_top_armed_buffer_ids: old(self)@.history_top_armed_buffer_ids.insert(id@),
                ..old(self)@
            }),
            old(self).wf() ==> final(self).wf(),
    {
        let ghost before = self@;
        self.history_top_armed_buffer_ids.insert(id);
        assert(self@.buffers == before.buffers);
    }

    /// Forgets the place that was on view before older lines came in.
    pub fn clear_history_anchor(&mut self, id: &str)
        ensures
            final(self)@ == (AppView {
                history_scroll_anchors: old(self)@.history_scroll_anchors.remove(id@),
                ..old(self)@
            }),
            old(self).wf() ==> final(self).wf(),
    {
        let ghost before = self@;
        self.history_scroll_anchors.remove(id);
        assert(self@.buffers == before.buffers);
    }
}

// ---------------------------------------------------------------------------
// The columns of the senders
// ---------------------------------------------------------------------------

/// How many buffers the width of the column of senders is kept for.
pub const PREFIX_COL_WIDTHS_MAX: usize = 500;

impl AppView {
    /// The buffers whose column widths are kept: all of them up to the limit;
    /// beyond it only those that still exist, and no more than the limit.
    pub open spec fn kept_columns(self, ids: Seq<Seq<char>>) -> Seq<Seq<char>> {
        let known = ids.filter(|id: Seq<char>| buffer_of(self.buffers, id) is Some);
        if ids.len() <= PREFIX_COL_WIDTHS_MAX {
            ids
        } else if known.len() <= PREFIX_COL_WIDTHS_MAX {
            known
        } else {
            known.take(PREFIX_COL_WIDTHS_MAX as int)
        }
    }
}

impl WeeChatApp {
    /// Chooses the buffers whose column widths are kept.
    pub fn kept_column_ids(&self, ids: Vec<String>) -> (kept: Vec<String>)
        requires
            self.wf(),
        ensures
            texts(kept@) == self@.kept_columns(texts(ids@)),
    {
        if ids.len() <= PREFIX_COL_WIDTHS_MAX {
            return ids;
        }
        let ghost all = texts(ids@);
        let ghost known = |id: Seq<char>| buffer_of(self@.buffers, id) is Some;
        let mut kept: Vec<String> = Vec::new();
        let mut i: usize = 0;
        proof {
            reveal(Seq::filter);
            assert(texts(kept@) =~= all.take(0).filter(known));
        }
        while i < ids.len()
            invariant
                self.wf(),
                i <= ids@.len(),
                all == texts(ids@),
                known == (|id: Seq<char>| buffer_of(self@.buffers, id) is Some),
                texts(kept@) == all.take(i as int).filter(known),
            decreases ids@.len() - i,
        {
            proof {
                lemma_filter_take(all, i as int, known);
            }
            if self.buffer_idx_of(ids[i].as_str()).is_some() {
                let ghost before = kept@;
                kept.push(ids[i].clone());
                assert(texts(kept@) =~= texts(before).push(all[i as int]));
            }
            i = i + 1;
        }
        assert(all.take(i as int) =~= all);
        if kept.len() > PREFIX_COL_WIDTHS_MAX {
            let ghost before = kept@;
            kept.truncate(PREFIX_COL_WIDTHS_MAX);
            assert(texts(kept@) =~= texts(before).take(PREFIX_COL_WIDTHS_MAX as int));
        }
        kept
    }
}

} // verus!
