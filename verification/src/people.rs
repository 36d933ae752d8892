//! Who a nick, a sender or a profile card stands for.
use vstd::prelude::*;
use crate::ansi::{joined, plain_style, ANSISection, AnsiStyle, SectionView};
use crate::models::{
    copy_list, opt_view, CandidateView, MatrixMemberProfile, MentionCandidate, Nick, NickView,
    ProfileView,
};
use crate::seqs::{first_from, first_index, position_from, views};
use crate::text::{
    before_byte, byte_len, bytes_in, chars_of, clone_opt, contains, is_boundary, is_space,
    is_whitespace, join2, join3, lemma_byte_len_concat, lemma_byte_len_positive,
    lemma_head_boundary, lemma_rfind_from, lemma_split_on_len, opt_pair, opt_text, rsplit_once,
    same_text, split_bytes, split_on, split_once, starts_with, str_contains, str_rsplit_once,
    str_split, str_split_once, str_starts_with, str_strip_prefix, str_strip_suffix, strip_prefix,
    strip_suffix, text_between, texts,
};

verus! {

#[derive(Debug)]
pub struct UserProfileCard {
    pub buffer_id: String,
    pub nick: String,
    pub prefix: String,
    pub server: String,
    pub is_matrix: bool,
    pub matrix_user_id: Option<String>,
    pub matrix: Option<MatrixMemberProfile>,
    pub matrix_identities: Vec<MatrixProfileIdentity>,
}

pub ghost struct CardView {
    pub buffer_id: Seq<char>,
    pub nick: Seq<char>,
    pub prefix: Seq<char>,
    pub server: Seq<char>,
    pub is_matrix: bool,
    pub matrix_user_id: Option<Seq<char>>,
    pub matrix: Option<ProfileView>,
    pub matrix_identities: Seq<IdentityView>,
}

impl View for UserProfileCard {
    type V = CardView;

    open spec fn view(&self) -> CardView {
        CardView {
            buffer_id: self.buffer_id@,
            nick: self.nick@,
            prefix: self.prefix@,
            server: self.server@,
            is_matrix: self.is_matrix,
            matrix_user_id: opt_text(self.matrix_user_id),
            matrix: opt_view(self.matrix),
            matrix_identities: views(self.matrix_identities@),
        }
    }
}

#[derive(Debug)]
pub struct MatrixProfileIdentity {
    pub user_id: String,
    pub profile: Option<MatrixMemberProfile>,
}

pub ghost struct IdentityView {
    pub user_id: Seq<char>,
    pub profile: Option<ProfileView>,
}

impl View for MatrixProfileIdentity {
    type V = IdentityView;

    open spec fn view(&self) -> IdentityView {
        IdentityView { user_id: self.user_id@, profile: opt_view(self.profile) }
    }
}

/// One row of a Matrix nick list: a display name and who carries it.
#[derive(Debug)]
pub struct MatrixNickCluster {
    pub display_name: String,
    pub members: Vec<Nick>,
    pub user_ids: Vec<String>,
}

pub ghost struct ClusterView {
    pub display_name: Seq<char>,
    pub members: Seq<NickView>,
    pub user_ids: Seq<Seq<char>>,
}

impl View for MatrixNickCluster {
    type V = ClusterView;

    open spec fn view(&self) -> ClusterView {
        ClusterView {
            display_name: self.display_name@,
            members: views(self.members@),
            user_ids: texts(self.user_ids@),
        }
    }
}

// ---------------------------------------------------------------------------
// Names
// ---------------------------------------------------------------------------

pub open spec fn has_space(text: Seq<char>) -> bool {
    exists|i: int| 0 <= i < text.len() && is_space(#[trigger] text[i])
}

pub fn any_whitespace(text: &str) -> (yes: bool)
    ensures
        yes == has_space(text@),
{
    let t = chars_of(text);
    let mut i: usize = 0;
    while i < t.len()
        invariant
            i <= t@.len(),
            t@ == text@,
            forall|j: int| 0 <= j < i ==> !is_space(#[trigger] text@[j]),
        decreases t@.len() - i,
    {
        if is_whitespace(t[i]) {
            assert(is_space(text@[i as int]));
            return true;
        }
        i = i + 1;
    }
    false
}

/// The display name and the user id of a nick of the form `name (@user:server)`.
pub open spec fn disambiguated(nick: Seq<char>) -> Option<(Seq<char>, Seq<char>)> {
    match strip_suffix(nick, ")"@) {
        Some(open) => match rsplit_once(open, " ("@) {
            Some((display_name, user_id)) => if display_name.len() == 0 || !starts_with(
                user_id,
                "@"@,
            ) || !contains(user_id, ":"@) || has_space(user_id) {
                None
            } else {
                Some((display_name, user_id))
            },
            None => None,
        },
        None => None,
    }
}

pub fn split_disambiguated_matrix_nick(nick: &str) -> (parts: Option<(String, String)>)
    ensures
        opt_pair(parts) == disambiguated(nick@),
{
    match str_strip_suffix(nick, ")") {
        Some(open) => match str_rsplit_once(open.as_str(), " (") {
            Some((display_name, user_id)) => {
                if display_name.as_str().is_empty() || !str_starts_with(user_id.as_str(), "@")
                    || !str_contains(user_id.as_str(), ":") || any_whitespace(user_id.as_str()) {
                    None
                } else {
                    Some((display_name, user_id))
                }
            },
            None => None,
        },
        None => None,
    }
}

/// The server of a user id.
pub open spec fn identity_source(user_id: Seq<char>) -> Seq<char> {
    match strip_prefix(user_id, "@"@) {
        Some(rest) => match split_once(rest, ":"@) {
            Some((_, server)) => server,
            None => "Matrix"@,
        },
        None => "Matrix"@,
    }
}

pub fn matrix_identity_source(user_id: &str) -> (source: String)
    ensures
        source@ == identity_source(user_id@),
{
    match str_strip_prefix(user_id, "@") {
        Some(rest) => match str_split_once(rest.as_str(), ":") {
            Some((_, server)) => server,
            None => "Matrix".to_owned(),
        },
        None => "Matrix".to_owned(),
    }
}

/// The labels of a host name.
pub open spec fn host_labels(host: Seq<char>) -> Seq<Seq<char>> {
    split_on(host, '.').filter(|label: Seq<char>| label.len() > 0)
}

/// A short name for the server of a user id: the last but one label of its
/// host, or the whole host where it has fewer labels.
pub open spec fn identity_disambiguator(user_id: Seq<char>) -> Seq<char> {
    let host = split_on(identity_source(user_id), ':')[0];
    let labels = host_labels(host);
    if labels.len() >= 2 {
        labels[labels.len() - 2]
    } else {
        host
    }
}

pub fn matrix_identity_disambiguator(user_id: &str) -> (short: String)
    ensures
        short@ == identity_disambiguator(user_id@),
{
    let source = matrix_identity_source(user_id);
    let parts = str_split(source.as_str(), ':');
    proof {
        lemma_split_on_len(source@, ':');
        assert(texts(parts@)[0] == parts@[0]@);
    }
    let host = parts[0].clone();
    let split = str_split(host.as_str(), '.');
    let ghost p = |label: Seq<char>| label.len() > 0;
    let mut labels: Vec<String> = Vec::new();
    let mut i: usize = 0;
    let ghost all = split_on(host@, '.');
    proof {
        reveal(Seq::filter);
        assert(texts(labels@) =~= all.take(0).filter(p));
    }
    while i < split.len()
        invariant
            i <= split@.len(),
            texts(split@) == all,
            p == (|label: Seq<char>| label.len() > 0),
            texts(labels@) == all.take(i as int).filter(p),
        decreases split@.len() - i,
    {
        let ghost before = labels@;
        proof {
            crate::seqs::lemma_filter_take(all, i as int, p);
            assert(all[i as int] == split@[i as int]@);
        }
        if !split[i].as_str().is_empty() {
            labels.push(split[i].clone());
            assert(texts(labels@) =~= texts(before).push(split@[i as int]@));
        }
        i = i + 1;
    }
    assert(all.take(i as int) =~= all);
    if labels.len() >= 2 {
        assert(texts(labels@)[labels@.len() - 2] == labels@[labels@.len() - 2]@);
        labels[labels.len() - 2].clone()
    } else {
        host
    }
}

/// The marks that WeeChat puts before a nick to show its rank.
pub open spec fn is_rank_mark(c: char) -> bool {
    c == ' ' || c == '~' || c == '&' || c == '@' || c == '%' || c == '+'
}

/// How many rank marks a nick begins with.
pub open spec fn rank_len(nick: Seq<char>) -> nat
    decreases nick.len(),
{
    if nick.len() > 0 && is_rank_mark(nick[0]) {
        1 + rank_len(nick.skip(1))
    } else {
        0
    }
}

pub open spec fn unranked(nick: Seq<char>) -> Seq<char> {
    nick.skip(rank_len(nick) as int)
}

fn count_rank_marks(nick: &Vec<char>) -> (n: usize)
    ensures
        n == rank_len(nick@),
        n <= nick@.len(),
{
    let mut n: usize = 0;
    assert(nick@.skip(0) =~= nick@);
    while n < nick.len() && (nick[n] == ' ' || nick[n] == '~' || nick[n] == '&' || nick[n] == '@'
        || nick[n] == '%' || nick[n] == '+')
        invariant
            n <= nick@.len(),
            rank_len(nick@) == n + rank_len(nick@.skip(n as int)),
        decreases nick@.len() - n,
    {
        assert(nick@.skip(n as int).skip(1) =~= nick@.skip(n + 1));
        n = n + 1;
    }
    n
}

/// A nick without its rank marks.
pub fn trim_rank(nick: &str) -> (bare: String)
    ensures
        bare@ == unranked(nick@),
{
    let chars = chars_of(nick);
    let n: usize = count_rank_marks(&chars);
    text_between(chars.as_slice(), n, chars.len())
}

/// The nick, with its rank, and the network of a sender that an IRC bridge
/// brought in.
pub open spec fn bridged(prefix: Seq<char>) -> Option<(Seq<char>, Seq<char>)> {
    let rank = prefix.take(rank_len(prefix) as int);
    match strip_prefix(unranked(prefix), "irc_"@) {
        Some(bridge) => match split_once(bridge, ".chat_"@) {
            Some((network, nick)) => if network.len() == 0 || nick.len() == 0 || has_space(network)
                || has_space(nick) {
                None
            } else {
                Some((rank + nick, network))
            },
            None => None,
        },
        None => None,
    }
}

pub fn compact_matrix_irc_bridge_prefix(prefix: &str) -> (parts: Option<(String, String)>)
    ensures
        opt_pair(parts) == bridged(prefix@),
{
    let chars = chars_of(prefix);
    let n: usize = count_rank_marks(&chars);
    let rank = text_between(chars.as_slice(), 0, n);
    let bare = text_between(chars.as_slice(), n, chars.len());
    match str_strip_prefix(bare.as_str(), "irc_") {
        Some(bridge) => match str_split_once(bridge.as_str(), ".chat_") {
            Some((network, nick)) => {
                if network.as_str().is_empty() || nick.as_str().is_empty() || any_whitespace(
                    network.as_str(),
                ) || any_whitespace(nick.as_str()) {
                    None
                } else {
                    Some((join2(rank.as_str(), nick.as_str()), network))
                }
            },
            None => None,
        },
        None => None,
    }
}

/// A sender as it is shown: a short name in place of a bridge or a user id.
pub open spec fn sender_label(sender: Seq<char>) -> Seq<char> {
    match bridged(sender) {
        Some((display_name, network)) => display_name + " ·"@ + network,
        None => match disambiguated(sender) {
            Some((display_name, user_id)) => display_name + " ·"@ + identity_disambiguator(user_id),
            None => sender,
        },
    }
}

pub fn compact_matrix_sender_label(sender: &str) -> (label: String)
    ensures
        label@ == sender_label(sender@),
{
    match compact_matrix_irc_bridge_prefix(sender) {
        Some((display_name, network)) => join3(display_name.as_str(), " ·", network.as_str()),
        None => match split_disambiguated_matrix_nick(sender) {
            Some((display_name, user_id)) => {
                let short = matrix_identity_disambiguator(user_id.as_str());
                join3(display_name.as_str(), " ·", short.as_str())
            },
            None => sender.to_owned(),
        },
    }
}

/// The style of the first section that holds text.
pub open spec fn leading_style(sections: Seq<SectionView>) -> AnsiStyle {
    match first_index(sections, |s: SectionView| s.text.len() > 0) {
        Some(i) => sections[i].style,
        None => plain_style(),
    }
}

/// The sections from `at` on, cut after `bytes` bytes of text and without
/// their links.
pub open spec fn cut_sections(sections: Seq<SectionView>, at: int, bytes: int) -> Seq<SectionView>
    decreases sections.len() - at,
{
    if at < 0 || at >= sections.len() || bytes <= 0 {
        Seq::empty()
    } else {
        let len = byte_len(sections[at].text) as int;
        let take = if bytes <= len {
            bytes
        } else {
            len
        };
        seq![
            SectionView {
                text: before_byte(sections[at].text, take),
                style: sections[at].style,
                url: None,
            },
        ] + cut_sections(sections, at + 1, bytes - take)
    }
}

/// Whether the cut after `bytes` bytes falls between two characters.
pub open spec fn cut_fits(sections: Seq<SectionView>, at: int, bytes: int) -> bool
    decreases sections.len() - at,
{
    if at < 0 || at >= sections.len() || bytes <= 0 {
        true
    } else {
        let len = byte_len(sections[at].text) as int;
        if bytes < len {
            is_boundary(sections[at].text, bytes)
        } else {
            cut_fits(sections, at + 1, bytes - len)
        }
    }
}

/// The sections of a sender as they are shown.
pub open spec fn compact_sections(plain_prefix: Seq<char>, sections: Seq<SectionView>) -> Seq<
    SectionView,
> {
    match bridged(plain_prefix) {
        Some((display_name, network)) => seq![
            SectionView { text: display_name, style: leading_style(sections), url: None },
            SectionView { text: " ·"@ + network, style: plain_style(), url: None },
        ],
        None => match disambiguated(plain_prefix) {
            Some((display_name, user_id)) => cut_sections(
                sections,
                0,
                byte_len(display_name) as int,
            ).push(
                SectionView {
                    text: " ·"@ + identity_disambiguator(user_id),
                    style: plain_style(),
                    url: None,
                },
            ),
            None => sections,
        },
    }
}

proof fn lemma_whole_text(text: Seq<char>)
    ensures
        is_boundary(text, byte_len(text) as int),
        before_byte(text, byte_len(text) as int) == text,
{
    vstd::utf8::encode_utf8_valid_utf8(text);
    vstd::utf8::encode_utf8_decode_utf8(text);
    vstd::utf8::is_char_boundary_start_end_of_seq(vstd::utf8::encode_utf8(text));
    assert(vstd::utf8::encode_utf8(text).take(byte_len(text) as int) =~= vstd::utf8::encode_utf8(
        text,
    ));
}

pub fn compact_matrix_prefix_sections(plain_prefix: &str, sections: &Vec<ANSISection>) -> (compact:
    Vec<ANSISection>)
    requires
        bridged(plain_prefix@) is None && disambiguated(plain_prefix@) is Some ==> cut_fits(
            views(sections@),
            0,
            byte_len((disambiguated(plain_prefix@)->0).0) as int,
        ),
    ensures
        views(compact@) == compact_sections(plain_prefix@, views(sections@)),
{
    let ghost all = views(sections@);
    match compact_matrix_irc_bridge_prefix(plain_prefix) {
        Some((display_name, network)) => {
            let found = |s: &ANSISection| -> (r: bool)
                ensures
                    r == (s@.text.len() > 0),
                { !s.text.as_str().is_empty() };
            let style = match position_from(
                sections.as_slice(),
                0,
                found,
                Ghost(|s: SectionView| s.text.len() > 0),
            ) {
                Some(i) => {
                    assert(all[i as int] == sections@[i as int]@);
                    sections[i].style
                },
                None => AnsiStyle::default(),
            };
            let mut compact: Vec<ANSISection> = Vec::new();
            compact.push(ANSISection { text: display_name, style, url: None });
            compact.push(
                ANSISection {
                    text: join2(" ·", network.as_str()),
                    style: AnsiStyle::default(),
                    url: None,
                },
            );
            assert(views(compact@) =~= compact_sections(plain_prefix@, all));
            return compact;
        },
        None => {},
    }
    match split_disambiguated_matrix_nick(plain_prefix) {
        Some((display_name, user_id)) => {
            let mut compact: Vec<ANSISection> = Vec::new();
            let total: usize = bytes_in(display_name.as_str());
            let mut remaining: usize = total;
            let mut i: usize = 0;
            assert(views(compact@) + cut_sections(all, 0, total as int) =~= cut_sections(
                all,
                0,
                total as int,
            ));
            while i < sections.len() && remaining > 0
                invariant
                    i <= sections@.len(),
                    all == views(sections@),
                    cut_fits(all, i as int, remaining as int),
                    views(compact@) + cut_sections(all, i as int, remaining as int)
                        == cut_sections(all, 0, total as int),
                decreases sections@.len() - i,
            {
                assert(all[i as int] == sections@[i as int]@);
                let len: usize = bytes_in(sections[i].text.as_str());
                let take: usize = if remaining <= len {
                    remaining
                } else {
                    len
                };
                proof {
                    lemma_whole_text(sections@[i as int].text@);
                }
                let halves = split_bytes(sections[i].text.as_str(), take);
                let ghost before = views(compact@);
                let ghost cut = SectionView {
                    text: before_byte(all[i as int].text, take as int),
                    style: all[i as int].style,
                    url: None,
                };
                compact.push(
                    ANSISection { text: halves.0, style: sections[i].style, url: None },
                );
                proof {
                    assert(views(compact@) =~= before.push(cut));
                    assert(before + (seq![cut] + cut_sections(all, i + 1, remaining - take))
                        =~= before.push(cut) + cut_sections(all, i + 1, remaining - take));
                }
                remaining = remaining - take;
                i = i + 1;
            }
            let ghost before = views(compact@);
            assert(before + Seq::<SectionView>::empty() =~= before);
            let short = matrix_identity_disambiguator(user_id.as_str());
            compact.push(
                ANSISection {
                    text: join2(" ·", short.as_str()),
                    style: AnsiStyle::default(),
                    url: None,
                },
            );
            assert(views(compact@) =~= compact_sections(plain_prefix@, all));
            compact
        },
        None => copy_list(sections),
    }
}

// ---------------------------------------------------------------------------
// Profiles
// ---------------------------------------------------------------------------

/// The row of a nick in the list of nicks.
pub open spec fn nick_cluster(nick: NickView) -> ClusterView {
    match disambiguated(nick.name) {
        Some((display_name, user_id)) => ClusterView {
            display_name,
            members: seq![nick],
            user_ids: seq![user_id],
        },
        None => ClusterView {
            display_name: nick.name,
            members: seq![nick],
            user_ids: Seq::empty(),
        },
    }
}

pub fn matrix_nick_clusters(nicks: &Vec<Nick>) -> (clusters: Vec<MatrixNickCluster>)
    ensures
        views(clusters@) == views(nicks@).map_values(|n: NickView| nick_cluster(n)),
{
    let mut clusters: Vec<MatrixNickCluster> = Vec::new();
    let mut i: usize = 0;
    while i < nicks.len()
        invariant
            i <= nicks@.len(),
            clusters@.len() == i,
            forall|j: int| 0 <= j < i ==> (#[trigger] clusters@[j])@ == nick_cluster(nicks@[j]@),
        decreases nicks@.len() - i,
    {
        let nick = &nicks[i];
        let mut members: Vec<Nick> = Vec::new();
        members.push(nick.clone());
        assert(views(members@) =~= seq![nick@]);
        let mut user_ids: Vec<String> = Vec::new();
        let display_name = match split_disambiguated_matrix_nick(nick.name.as_str()) {
            Some((display_name, user_id)) => {
                user_ids.push(user_id);
                assert(texts(user_ids@) =~= seq![user_id@]);
                display_name
            },
            None => {
                assert(texts(user_ids@) =~= Seq::empty());
                nick.name.clone()
            },
        };
        clusters.push(MatrixNickCluster { display_name, members, user_ids });
        i = i + 1;
    }
    assert(views(clusters@) =~= views(nicks@).map_values(|n: NickView| nick_cluster(n)));
    clusters
}

/// The only place that satisfies `p`, where there is exactly one.
pub open spec fn only_index<A>(s: Seq<A>, p: spec_fn(A) -> bool) -> Option<int> {
    match first_index(s, p) {
        Some(i) => if first_from(s, p, i + 1) is None {
            Some(i)
        } else {
            None
        },
        None => None,
    }
}

/// The profile behind a nick: the one that carries it, or the one whose user
/// id it spells out, or the one that carries it without rank marks, or the only
/// one with that display name.
pub open spec fn profile_for_nick(profiles: Seq<ProfileView>, nick: Seq<char>) -> Option<
    ProfileView,
> {
    match first_index(profiles, |p: ProfileView| p.nick == nick) {
        Some(i) => Some(profiles[i]),
        None => match disambiguated(nick) {
            Some((_, user_id)) => match first_index(
                profiles,
                |p: ProfileView| p.user_id == user_id,
            ) {
                Some(i) => Some(profiles[i]),
                None => None,
            },
            None => match first_index(profiles, |p: ProfileView| p.nick == unranked(nick)) {
                Some(i) => Some(profiles[i]),
                None => match only_index(
                    profiles,
                    |p: ProfileView| p.display_name == unranked(nick),
                ) {
                    Some(i) => Some(profiles[i]),
                    None => None,
                },
            },
        },
    }
}

fn profile_with_nick(profiles: &Vec<MatrixMemberProfile>, nick: &str) -> (at: Option<usize>)
    ensures
        match at {
            Some(i) => i < profiles@.len() && first_index(
                views(profiles@),
                |p: ProfileView| p.nick == nick@,
            ) == Some(i as int),
            None => first_index(views(profiles@), |p: ProfileView| p.nick == nick@) is None,
        },
{
    let found = |p: &MatrixMemberProfile| -> (r: bool)
        ensures
            r == (p@.nick == nick@),
        { same_text(p.nick.as_str(), nick) };
    position_from(profiles.as_slice(), 0, found, Ghost(|p: ProfileView| p.nick == nick@))
}

pub fn matrix_profile_for_nick(profiles: &Vec<MatrixMemberProfile>, nick: &str) -> (profile: Option<
    MatrixMemberProfile,
>)
    ensures
        opt_view(profile) == profile_for_nick(views(profiles@), nick@),
{
    match profile_with_nick(profiles, nick) {
        Some(i) => {
            assert(views(profiles@)[i as int] == profiles@[i as int]@);
            return Some(profiles[i].clone());
        },
        None => {},
    }
    match split_disambiguated_matrix_nick(nick) {
        Some((_, user_id)) => {
            let id = user_id.as_str();
            let found = |p: &MatrixMemberProfile| -> (r: bool)
                ensures
                    r == (p@.user_id == user_id@),
                { same_text(p.user_id.as_str(), id) };
            return match position_from(
                profiles.as_slice(),
                0,
                found,
                Ghost(|p: ProfileView| p.user_id == user_id@),
            ) {
                Some(i) => {
                    assert(views(profiles@)[i as int] == profiles@[i as int]@);
                    Some(profiles[i].clone())
                },
                None => None,
            };
        },
        None => {},
    }
    let bare = trim_rank(nick);
    match profile_with_nick(profiles, bare.as_str()) {
        Some(i) => {
            assert(views(profiles@)[i as int] == profiles@[i as int]@);
            return Some(profiles[i].clone());
        },
        None => {},
    }
    let name = bare.as_str();
    let ghost p = |p: ProfileView| p.display_name == unranked(nick@);
    let found = |p: &MatrixMemberProfile| -> (r: bool)
        ensures
            r == (p@.display_name == unranked(nick@)),
        { same_text(p.display_name.as_str(), name) };
    match position_from(profiles.as_slice(), 0, found, Ghost(p)) {
        Some(i) => {
            assert(views(profiles@)[i as int] == profiles@[i as int]@);
            let n: usize = profiles.len();
            if position_from(profiles.as_slice(), i + 1, found, Ghost(p)).is_none() {
                Some(profiles[i].clone())
            } else {
                None
            }
        },
        None => None,
    }
}

/// The card of the sender of a message.
pub open spec fn sender_card(
    buffer_id: Seq<char>,
    sender: Seq<char>,
    server: Seq<char>,
    is_matrix: bool,
    profiles: Seq<ProfileView>,
    nicks: Seq<NickView>,
) -> Option<CardView> {
    if is_matrix {
        match profile_for_nick(profiles, sender) {
            Some(profile) => Some(
                CardView {
                    buffer_id,
                    nick: profile.nick,
                    prefix: Seq::empty(),
                    server,
                    is_matrix: true,
                    matrix_user_id: Some(profile.user_id),
                    matrix: Some(profile),
                    matrix_identities: Seq::empty(),
                },
            ),
            None => None,
        }
    } else {
        match first_index(nicks, |n: NickView| n.name == unranked(sender)) {
            Some(i) => Some(
                CardView {
                    buffer_id,
                    nick: nicks[i].name,
                    prefix: nicks[i].prefix,
                    server,
                    is_matrix: false,
                    matrix_user_id: None,
                    matrix: None,
                    matrix_identities: Seq::empty(),
                },
            ),
            None => None,
        }
    }
}

pub fn message_sender_profile_card(
    buffer_id: &str,
    sender: &str,
    server: &str,
    is_matrix: bool,
    matrix_profiles: &Vec<MatrixMemberProfile>,
    nicks: &Vec<Nick>,
) -> (card: Option<UserProfileCard>)
    ensures
        opt_view(card) == sender_card(
            buffer_id@,
            sender@,
            server@,
            is_matrix,
            views(matrix_profiles@),
            views(nicks@),
        ),
{
    let identities: Vec<MatrixProfileIdentity> = Vec::new();
    assert(views(identities@) =~= Seq::empty());
    if is_matrix {
        return match matrix_profile_for_nick(matrix_profiles, sender) {
            Some(profile) => {
                let prefix = String::new();
                assert(prefix@ =~= Seq::empty());
                Some(
                    UserProfileCard {
                        buffer_id: buffer_id.to_owned(),
                        nick: profile.nick.clone(),
                        prefix,
                        server: server.to_owned(),
                        is_matrix: true,
                        matrix_user_id: Some(profile.user_id.clone()),
                        matrix: Some(profile),
                        matrix_identities: identities,
                    },
                )
            },
            None => None,
        };
    }
    let bare = trim_rank(sender);
    let name = bare.as_str();
    let found = |n: &Nick| -> (r: bool)
        ensures
            r == (n@.name == unranked(sender@)),
        { same_text(n.name.as_str(), name) };
    match position_from(
        nicks.as_slice(),
        0,
        found,
        Ghost(|n: NickView| n.name == unranked(sender@)),
    ) {
        Some(i) => {
            assert(views(nicks@)[i as int] == nicks@[i as int]@);
            Some(
                UserProfileCard {
                    buffer_id: buffer_id.to_owned(),
                    nick: nicks[i].name.clone(),
                    prefix: nicks[i].prefix.clone(),
                    server: server.to_owned(),
                    is_matrix: false,
                    matrix_user_id: None,
                    matrix: None,
                    matrix_identities: identities,
                },
            )
        },
        None => None,
    }
}

/// Whom a query from a card goes to: a user id, never a display name.
pub open spec fn query_target(card: CardView) -> Option<Seq<char>> {
    if !card.is_matrix {
        None
    } else if card.matrix is Some {
        Some(card.matrix->0.user_id)
    } else if card.matrix_user_id is Some {
        card.matrix_user_id
    } else if card.matrix_identities.len() == 1 {
        Some(card.matrix_identities[0].user_id)
    } else {
        None
    }
}

pub fn matrix_profile_query_target(card: &UserProfileCard) -> (target: Option<String>)
    ensures
        opt_text(target) == query_target(card@),
{
    if !card.is_matrix {
        return None;
    }
    match &card.matrix {
        Some(profile) => {
            return Some(profile.user_id.clone());
        },
        None => {},
    }
    if card.matrix_user_id.is_some() {
        return clone_opt(&card.matrix_user_id);
    }
    if card.matrix_identities.len() == 1 {
        assert(card@.matrix_identities[0] == card.matrix_identities@[0]@);
        Some(card.matrix_identities[0].user_id.clone())
    } else {
        None
    }
}

/// The user id of the only candidate with a display name.
pub open spec fn user_id_for_nick(candidates: Seq<CandidateView>, nick: Seq<char>) -> Option<
    Seq<char>,
> {
    match only_index(candidates, |c: CandidateView| c.display_name == nick) {
        Some(i) => Some(candidates[i].user_id),
        None => None,
    }
}

pub fn matrix_user_id_for_nick(candidates: &Vec<MentionCandidate>, nick: &str) -> (user_id: Option<
    String,
>)
    ensures
        opt_text(user_id) == user_id_for_nick(views(candidates@), nick@),
{
    let ghost p = |c: CandidateView| c.display_name == nick@;
    let found = |c: &MentionCandidate| -> (r: bool)
        ensures
            r == (c@.display_name == nick@),
        { same_text(c.display_name.as_str(), nick) };
    match position_from(candidates.as_slice(), 0, found, Ghost(p)) {
        Some(i) => {
            assert(views(candidates@)[i as int] == candidates@[i as int]@);
            let n: usize = candidates.len();
            if position_from(candidates.as_slice(), i + 1, found, Ghost(p)).is_none() {
                Some(candidates[i].user_id.clone())
            } else {
                None
            }
        },
        None => None,
    }
}

/// A nick that spells out a user id is never answered with another identity:
/// without a profile of that very nick, the profile is the one of that user or
/// there is none.
pub proof fn spelled_out_identity_is_never_replaced(profiles: Seq<ProfileView>, nick: Seq<char>)
    requires
        disambiguated(nick) is Some,
        forall|i: int| 0 <= i < profiles.len() ==> (#[trigger] profiles[i]).nick != nick,
    ensures
        profile_for_nick(profiles, nick) is Some ==> profile_for_nick(profiles, nick)->0.user_id
            == (disambiguated(nick)->0).1,
{
    crate::seqs::lemma_first_from(profiles, |p: ProfileView| p.nick == nick, 0);
    crate::seqs::lemma_first_from(
        profiles,
        |p: ProfileView| p.user_id == (disambiguated(nick)->0).1,
        0,
    );
}

/// A display name that two members share names neither of them.
pub proof fn shared_display_name_names_nobody(
    candidates: Seq<CandidateView>,
    nick: Seq<char>,
    i: int,
    j: int,
)
    requires
        0 <= i < j < candidates.len(),
        candidates[i].display_name == nick,
        candidates[j].display_name == nick,
    ensures
        user_id_for_nick(candidates, nick) is None,
{
    let p = |c: CandidateView| c.display_name == nick;
    crate::seqs::lemma_first_from(candidates, p, 0);
    match first_index(candidates, p) {
        Some(k) => {
            assert(p(candidates[i]));
            assert(k <= i);
            crate::seqs::lemma_first_from(candidates, p, k + 1);
            assert(p(candidates[j]));
        },
        None => {},
    }
}

proof fn lemma_joined_first(sections: Seq<SectionView>)
    requires
        sections.len() > 0,
    ensures
        joined(sections) == sections[0].text + joined(sections.skip(1)),
    decreases sections.len(),
{
    if sections.len() == 1 {
        assert(sections.skip(1) =~= Seq::empty());
        assert(sections.drop_last() =~= Seq::empty());
        assert(joined(sections) =~= sections[0].text + joined(sections.skip(1)));
    } else {
        lemma_joined_first(sections.drop_last());
        assert(sections.drop_last().skip(1) =~= sections.skip(1).drop_last());
        assert(joined(sections) =~= sections[0].text + joined(sections.skip(1)));
    }
}

proof fn lemma_cut_fits(sections: Seq<SectionView>, at: int, n: int)
    requires
        0 <= at <= sections.len(),
        0 <= n <= joined(sections.skip(at)).len(),
    ensures
        cut_fits(sections, at, byte_len(joined(sections.skip(at)).take(n)) as int),
    decreases sections.len() - at,
{
    let all = joined(sections.skip(at));
    if at < sections.len() {
        let first = sections[at].text;
        let rest = joined(sections.skip(at + 1));
        lemma_joined_first(sections.skip(at));
        assert(sections.skip(at).skip(1) =~= sections.skip(at + 1));
        assert(all == first + rest);
        if n < first.len() {
            assert(all.take(n) =~= first.take(n));
            lemma_head_boundary(first, n);
            lemma_byte_len_positive(first.skip(n));
        } else {
            assert(all.take(n) =~= first + rest.take(n - first.len()));
            lemma_byte_len_concat(first, rest.take(n - first.len()));
            lemma_cut_fits(sections, at + 1, n - first.len());
        }
    }
}

/// The sections of a sender can always be cut where the display name ends: the
/// plain text of a line is that of its sections.
pub proof fn own_sections_can_be_cut(sections: Seq<SectionView>)
    ensures
        disambiguated(joined(sections)) is Some ==> cut_fits(
            sections,
            0,
            byte_len((disambiguated(joined(sections))->0).0) as int,
        ),
{
    let plain = joined(sections);
    if disambiguated(plain) is Some {
        let name = (disambiguated(plain)->0).0;
        reveal_strlit(")");
        reveal_strlit(" (");
        assert(sections.skip(0) =~= sections);
        let open = strip_suffix(plain, ")"@)->0;
        lemma_rfind_from(open, " ("@, open.len() - 2);
        assert(name.len() <= open.len() <= plain.len());
        assert(name =~= plain.take(name.len() as int));
        lemma_cut_fits(sections, 0, name.len() as int);
    }
}

} // verus!
