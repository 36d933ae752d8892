//! Buffers, lines and the people in them.
use vstd::prelude::*;
use std::collections::VecDeque;
use crate::ansi::{join_sections, joined, sections, ANSIParser, ANSISection, SectionView};
use crate::json::Json;
use crate::seqs::{first_from, first_index, views};
use crate::text::{
    alphanumeric, chars_of, clone_opt, find, find_from, first_word, is_alphanumeric,
    lemma_find_from, lowercase, opt_text, same_text, split_on, str_first_word, str_split,
    str_strip_prefix, strip_prefix, texts, to_lowercase,
};
use crate::time::Timestamp;

verus! {

/// An answer or an event of the relay.
#[derive(Debug)]
pub struct WeeChatResponse {
    pub request_id: Option<String>,
    pub event_name: Option<String>,
    pub code: Option<i64>,
    pub message: Option<String>,
    pub body_type: Option<String>,
    pub buffer_id: Option<i64>,
    pub body: Option<Json>,
}

#[derive(Debug, Clone, Copy, PartialEq, Eq, Structural)]
pub enum BufferActivity {
    Idle,
    Metadata,
    Message,
    Highlight,
}

impl BufferActivity {
    /// The place of an activity in the order of urgency.
    pub open spec fn level(self) -> int {
        match self {
            BufferActivity::Idle => 0,
            BufferActivity::Metadata => 1,
            BufferActivity::Message => 2,
            BufferActivity::Highlight => 3,
        }
    }

    pub fn rank(self) -> (rank: u8)
        ensures
            rank == self.level(),
    {
        match self {
            BufferActivity::Idle => 0,
            BufferActivity::Metadata => 1,
            BufferActivity::Message => 2,
            BufferActivity::Highlight => 3,
        }
    }
}

#[derive(Debug, Clone, Copy, PartialEq, Eq, Structural)]
pub enum MatrixReplyLineKind {
    Header,
    Quote,
}

#[derive(Debug)]
pub struct MatrixReplyContext {
    pub event_id: Option<String>,
    pub sender: Option<String>,
    pub kind: MatrixReplyLineKind,
}

pub ghost struct ReplyView {
    pub event_id: Option<Seq<char>>,
    pub sender: Option<Seq<char>>,
    pub kind: MatrixReplyLineKind,
}

impl View for MatrixReplyContext {
    type V = ReplyView;

    open spec fn view(&self) -> ReplyView {
        ReplyView {
            event_id: opt_text(self.event_id),
            sender: opt_text(self.sender),
            kind: self.kind,
        }
    }
}

impl Clone for MatrixReplyContext {
    fn clone(&self) -> (copy: Self)
        ensures
            copy == *self,
    {
        MatrixReplyContext {
            event_id: clone_opt(&self.event_id),
            sender: clone_opt(&self.sender),
            kind: self.kind,
        }
    }
}

#[derive(Debug)]
pub struct MatrixMedia {
    pub mxc_uri: String,
    pub name: String,
    pub kind: String,
}

pub ghost struct MediaView {
    pub mxc_uri: Seq<char>,
    pub name: Seq<char>,
    pub kind: Seq<char>,
}

impl View for MatrixMedia {
    type V = MediaView;

    open spec fn view(&self) -> MediaView {
        MediaView { mxc_uri: self.mxc_uri@, name: self.name@, kind: self.kind@ }
    }
}

impl Clone for MatrixMedia {
    fn clone(&self) -> (copy: Self)
        ensures
            copy == *self,
    {
        MatrixMedia {
            mxc_uri: self.mxc_uri.clone(),
            name: self.name.clone(),
            kind: self.kind.clone(),
        }
    }
}

#[derive(Debug, PartialEq, Eq)]
pub struct MentionCandidate {
    pub display_name: String,
    pub user_id: String,
}

pub ghost struct CandidateView {
    pub display_name: Seq<char>,
    pub user_id: Seq<char>,
}

impl View for MentionCandidate {
    type V = CandidateView;

    open spec fn view(&self) -> CandidateView {
        CandidateView { display_name: self.display_name@, user_id: self.user_id@ }
    }
}

impl Clone for MentionCandidate {
    fn clone(&self) -> (copy: Self)
        ensures
            copy == *self,
    {
        MentionCandidate {
            display_name: self.display_name.clone(),
            user_id: self.user_id.clone(),
        }
    }
}

#[derive(Debug, PartialEq, Eq)]
pub struct MatrixMemberProfile {
    pub user_id: String,
    pub display_name: String,
    pub nick: String,
    pub membership: String,
    pub role: String,
    pub power_level: Option<i64>,
    pub avatar_mxc: Option<String>,
}

pub ghost struct ProfileView {
    pub user_id: Seq<char>,
    pub display_name: Seq<char>,
    pub nick: Seq<char>,
    pub membership: Seq<char>,
    pub role: Seq<char>,
    pub power_level: Option<i64>,
    pub avatar_mxc: Option<Seq<char>>,
}

impl View for MatrixMemberProfile {
    type V = ProfileView;

    open spec fn view(&self) -> ProfileView {
        ProfileView {
            user_id: self.user_id@,
            display_name: self.display_name@,
            nick: self.nick@,
            membership: self.membership@,
            role: self.role@,
            power_level: self.power_level,
            avatar_mxc: opt_text(self.avatar_mxc),
        }
    }
}

impl Clone for MatrixMemberProfile {
    fn clone(&self) -> (copy: Self)
        ensures
            copy == *self,
    {
        MatrixMemberProfile {
            user_id: self.user_id.clone(),
            display_name: self.display_name.clone(),
            nick: self.nick.clone(),
            membership: self.membership.clone(),
            role: self.role.clone(),
            power_level: self.power_level,
            avatar_mxc: clone_opt(&self.avatar_mxc),
        }
    }
}

#[derive(Debug)]
pub struct Nick {
    pub name: String,
    pub prefix: String,
    pub color_ansi: String,
    pub away: bool,
}

pub ghost struct NickView {
    pub name: Seq<char>,
    pub prefix: Seq<char>,
    pub color_ansi: Seq<char>,
    pub away: bool,
}

impl View for Nick {
    type V = NickView;

    open spec fn view(&self) -> NickView {
        NickView {
            name: self.name@,
            prefix: self.prefix@,
            color_ansi: self.color_ansi@,
            away: self.away,
        }
    }
}

impl Clone for Nick {
    fn clone(&self) -> (copy: Self)
        ensures
            copy == *self,
    {
        Nick {
            name: self.name.clone(),
            prefix: self.prefix.clone(),
            color_ansi: self.color_ansi.clone(),
            away: self.away,
        }
    }
}

/// The view of a value that may be absent.
pub open spec fn opt_view<T: View>(value: Option<T>) -> Option<T::V> {
    match value {
        Some(v) => Some(v@),
        None => None,
    }
}

#[derive(Debug)]
pub struct Line {
    pub id: String,
    pub timestamp: Timestamp,
    pub prefix: String,
    pub message: String,
    pub matrix_event_id: Option<String>,
    pub matrix_reply: Option<MatrixReplyContext>,
    pub matrix_media: Option<MatrixMedia>,
    pub displayed: bool,
    pub highlight: bool,
    pub parsed_prefix: Vec<ANSISection>,
    pub parsed_message: Vec<ANSISection>,
    pub plain_prefix: String,
    pub plain_message: String,
    pub plain_prefix_lower: String,
    pub plain_message_lower: String,
}

pub ghost struct LineView {
    pub id: Seq<char>,
    pub timestamp: Timestamp,
    pub prefix: Seq<char>,
    pub message: Seq<char>,
    pub matrix_event_id: Option<Seq<char>>,
    pub matrix_reply: Option<ReplyView>,
    pub matrix_media: Option<MediaView>,
    pub displayed: bool,
    pub highlight: bool,
    pub parsed_prefix: Seq<SectionView>,
    pub parsed_message: Seq<SectionView>,
    pub plain_prefix: Seq<char>,
    pub plain_message: Seq<char>,
    pub plain_prefix_lower: Seq<char>,
    pub plain_message_lower: Seq<char>,
}

impl View for Line {
    type V = LineView;

    open spec fn view(&self) -> LineView {
        LineView {
            id: self.id@,
            timestamp: self.timestamp,
            prefix: self.prefix@,
            message: self.message@,
            matrix_event_id: opt_text(self.matrix_event_id),
            matrix_reply: opt_view(self.matrix_reply),
            matrix_media: opt_view(self.matrix_media),
            displayed: self.displayed,
            highlight: self.highlight,
            parsed_prefix: views(self.parsed_prefix@),
            parsed_message: views(self.parsed_message@),
            plain_prefix: self.plain_prefix@,
            plain_message: self.plain_message@,
            plain_prefix_lower: self.plain_prefix_lower@,
            plain_message_lower: self.plain_message_lower@,
        }
    }
}

impl Clone for Line {
    fn clone(&self) -> (copy: Self)
        ensures
            copy@ == self@,
    {
        let parsed_prefix = copy_list(&self.parsed_prefix);
        let parsed_message = copy_list(&self.parsed_message);
        Line {
            id: self.id.clone(),
            timestamp: self.timestamp,
            prefix: self.prefix.clone(),
            message: self.message.clone(),
            matrix_event_id: clone_opt(&self.matrix_event_id),
            matrix_reply: match &self.matrix_reply {
                Some(reply) => Some(reply.clone()),
                None => None,
            },
            matrix_media: match &self.matrix_media {
                Some(media) => Some(media.clone()),
                None => None,
            },
            displayed: self.displayed,
            highlight: self.highlight,
            parsed_prefix,
            parsed_message,
            plain_prefix: self.plain_prefix.clone(),
            plain_message: self.plain_message.clone(),
            plain_prefix_lower: self.plain_prefix_lower.clone(),
            plain_message_lower: self.plain_message_lower.clone(),
        }
    }
}

/// A type whose copies look like the original.
pub open spec fn copies_faithfully<T: View + Clone>() -> bool {
    forall|a: &T, b: T| #[trigger] call_ensures(T::clone, (a,), b) ==> b@ == a@
}

pub fn copy_list<T: View + Clone>(list: &Vec<T>) -> (copy: Vec<T>)
    requires
        copies_faithfully::<T>(),
    ensures
        views(copy@) == views(list@),
{
    let mut copy: Vec<T> = Vec::new();
    let mut i: usize = 0;
    while i < list.len()
        invariant
            i <= list@.len(),
            copies_faithfully::<T>(),
            views(copy@) == views(list@).take(i as int),
        decreases list@.len() - i,
    {
        let ghost before = copy@;
        let item = list[i].clone();
        copy.push(item);
        assert(views(copy@) =~= views(before).push(list@[i as int]@));
        assert(views(list@).take(i + 1) =~= views(list@).take(i as int).push(list@[i as int]@));
        i = i + 1;
    }
    assert(views(list@).take(i as int) =~= views(list@));
    copy
}

pub fn copy_lines(list: &VecDeque<Line>) -> (copy: VecDeque<Line>)
    ensures
        views(copy@) == views(list@),
{
    let mut copy: VecDeque<Line> = VecDeque::new();
    let mut i: usize = 0;
    while i < list.len()
        invariant
            i <= list@.len(),
            views(copy@) == views(list@).take(i as int),
        decreases list@.len() - i,
    {
        let ghost before = copy@;
        copy.push_back(list[i].clone());
        assert(views(copy@) =~= views(before).push(list@[i as int]@));
        assert(views(list@).take(i + 1) =~= views(list@).take(i as int).push(list@[i as int]@));
        i = i + 1;
    }
    assert(views(list@).take(i as int) =~= views(list@));
    copy
}

/// A line as it is first made from its raw texts.
pub open spec fn new_line(
    id: Seq<char>,
    timestamp: Timestamp,
    prefix: Seq<char>,
    message: Seq<char>,
    displayed: bool,
    highlight: bool,
) -> LineView {
    LineView {
        id,
        timestamp,
        prefix,
        message,
        matrix_event_id: None,
        matrix_reply: None,
        matrix_media: None,
        displayed,
        highlight,
        parsed_prefix: sections(prefix),
        parsed_message: sections(message),
        plain_prefix: joined(sections(prefix)),
        plain_message: joined(sections(message)),
        plain_prefix_lower: lowercase(joined(sections(prefix))),
        plain_message_lower: lowercase(joined(sections(message))),
    }
}

impl Line {
    pub fn new(
        id: String,
        timestamp: Timestamp,
        prefix: String,
        message: String,
        displayed: bool,
        highlight: bool,
    ) -> (line: Self)
        ensures
            line@ == new_line(id@, timestamp, prefix@, message@, displayed, highlight),
    {
        let parsed_prefix = ANSIParser::parse(prefix.as_str());
        let parsed_message = ANSIParser::parse(message.as_str());
        let plain_prefix = join_sections(&parsed_prefix);
        let plain_message = join_sections(&parsed_message);
        let plain_prefix_lower = to_lowercase(plain_prefix.as_str());
        let plain_message_lower = to_lowercase(plain_message.as_str());
        Line {
            id,
            timestamp,
            prefix,
            message,
            matrix_event_id: None,
            matrix_reply: None,
            matrix_media: None,
            displayed,
            highlight,
            parsed_prefix,
            parsed_message,
            plain_prefix,
            plain_message,
            plain_prefix_lower,
            plain_message_lower,
        }
    }

    pub fn with_matrix_media(self, matrix_media: Option<MatrixMedia>) -> (line: Self)
        ensures
            line@ == (LineView { matrix_media: opt_view(matrix_media), ..self@ }),
    {
        Line { matrix_media, ..self }
    }
}

#[derive(Debug)]
pub struct Buffer {
    pub id: String,
    pub number: i32,
    pub name: String,
    pub full_name: String,
    pub plugin: String,
    pub kind: String,
    pub server: String,
    pub own_nick: String,
    pub messages: VecDeque<Line>,
    pub nicks: Vec<Nick>,
    pub mention_candidates: Vec<MentionCandidate>,
    pub matrix_member_profiles: Vec<MatrixMemberProfile>,
    pub activity: BufferActivity,
    pub unread_count: u32,
    pub last_read_id: Option<String>,
    pub last_markread_ts: Option<Timestamp>,
    pub topic: String,
    pub modes: String,
    pub hidden: bool,
    pub muted: bool,
    pub has_nicklist: bool,
    pub matrix_room_id: Option<String>,
    pub matrix_predecessor_room_id: Option<String>,
    pub matrix_replacement_room_id: Option<String>,
    pub matrix_thread_root: Option<String>,
    pub matrix_upload_v1: bool,
    pub matrix_avatar_mxc: Option<String>,
    /// Where the unread divider stands while the buffer is being looked at:
    /// the last read line as it was when the buffer was entered.
    pub visit_start_marker_id: Option<String>,
}

pub ghost struct BufferView {
    pub id: Seq<char>,
    pub number: i32,
    pub name: Seq<char>,
    pub full_name: Seq<char>,
    pub plugin: Seq<char>,
    pub kind: Seq<char>,
    pub server: Seq<char>,
    pub own_nick: Seq<char>,
    pub messages: Seq<LineView>,
    pub nicks: Seq<NickView>,
    pub mention_candidates: Seq<CandidateView>,
    pub matrix_member_profiles: Seq<ProfileView>,
    pub activity: BufferActivity,
    pub unread_count: u32,
    pub last_read_id: Option<Seq<char>>,
    pub last_markread_ts: Option<Timestamp>,
    pub topic: Seq<char>,
    pub modes: Seq<char>,
    pub hidden: bool,
    pub muted: bool,
    pub has_nicklist: bool,
    pub matrix_room_id: Option<Seq<char>>,
    pub matrix_predecessor_room_id: Option<Seq<char>>,
    pub matrix_replacement_room_id: Option<Seq<char>>,
    pub matrix_thread_root: Option<Seq<char>>,
    pub matrix_upload_v1: bool,
    pub matrix_avatar_mxc: Option<Seq<char>>,
    pub visit_start_marker_id: Option<Seq<char>>,
}

impl View for Buffer {
    type V = BufferView;

    open spec fn view(&self) -> BufferView {
        BufferView {
            id: self.id@,
            number: self.number,
            name: self.name@,
            full_name: self.full_name@,
            plugin: self.plugin@,
            kind: self.kind@,
            server: self.server@,
            own_nick: self.own_nick@,
            messages: views(self.messages@),
            nicks: views(self.nicks@),
            mention_candidates: views(self.mention_candidates@),
            matrix_member_profiles: views(self.matrix_member_profiles@),
            activity: self.activity,
            unread_count: self.unread_count,
            last_read_id: opt_text(self.last_read_id),
            last_markread_ts: self.last_markread_ts,
            topic: self.topic@,
            modes: self.modes@,
            hidden: self.hidden,
            muted: self.muted,
            has_nicklist: self.has_nicklist,
            matrix_room_id: opt_text(self.matrix_room_id),
            matrix_predecessor_room_id: opt_text(self.matrix_predecessor_room_id),
            matrix_replacement_room_id: opt_text(self.matrix_replacement_room_id),
            matrix_thread_root: opt_text(self.matrix_thread_root),
            matrix_upload_v1: self.matrix_upload_v1,
            matrix_avatar_mxc: opt_text(self.matrix_avatar_mxc),
            visit_start_marker_id: opt_text(self.visit_start_marker_id),
        }
    }
}

impl Clone for Buffer {
    fn clone(&self) -> (copy: Self)
        ensures
            copy@ == self@,
    {
        Buffer {
            id: self.id.clone(),
            number: self.number,
            name: self.name.clone(),
            full_name: self.full_name.clone(),
            plugin: self.plugin.clone(),
            kind: self.kind.clone(),
            server: self.server.clone(),
            own_nick: self.own_nick.clone(),
            messages: copy_lines(&self.messages),
            nicks: copy_list(&self.nicks),
            mention_candidates: copy_list(&self.mention_candidates),
            matrix_member_profiles: copy_list(&self.matrix_member_profiles),
            activity: self.activity,
            unread_count: self.unread_count,
            last_read_id: clone_opt(&self.last_read_id),
            last_markread_ts: self.last_markread_ts,
            topic: self.topic.clone(),
            modes: self.modes.clone(),
            hidden: self.hidden,
            muted: self.muted,
            has_nicklist: self.has_nicklist,
            matrix_room_id: clone_opt(&self.matrix_room_id),
            matrix_predecessor_room_id: clone_opt(&self.matrix_predecessor_room_id),
            matrix_replacement_room_id: clone_opt(&self.matrix_replacement_room_id),
            matrix_thread_root: clone_opt(&self.matrix_thread_root),
            matrix_upload_v1: self.matrix_upload_v1,
            matrix_avatar_mxc: clone_opt(&self.matrix_avatar_mxc),
            visit_start_marker_id: clone_opt(&self.visit_start_marker_id),
        }
    }
}

impl BufferView {
    /// A buffer that shows one thread of a Matrix room.
    pub open spec fn is_thread(self) -> bool {
        self.plugin == "matrix"@ && self.matrix_room_id is Some && self.matrix_thread_root is Some
    }

    /// The names under which the own user is mentioned.
    pub open spec fn own_aliases(self) -> Seq<Seq<char>> {
        if self.own_nick.len() == 0 {
            Seq::empty()
        } else if self.plugin != "matrix"@ {
            seq![self.own_nick]
        } else {
            seq![self.own_nick] + self.first_name_alias() + self.member_aliases()
        }
    }

    /// The first word of the own nick, where it is not too short to be a name.
    pub open spec fn first_name_alias(self) -> Seq<Seq<char>> {
        match first_word(self.own_nick) {
            Some(word) if word.len() >= 3 => seq![word],
            _ => Seq::empty(),
        }
    }

    /// The user id of the own member and its local part.
    pub open spec fn member_aliases(self) -> Seq<Seq<char>> {
        match first_index(
            self.mention_candidates,
            |c: CandidateView| c.display_name == self.own_nick,
        ) {
            Some(i) => {
                let user_id = self.mention_candidates[i].user_id;
                match strip_prefix(user_id, seq!['@']) {
                    Some(id) => seq![user_id, split_on(id, ':')[0]],
                    None => seq![user_id],
                }
            },
            None => Seq::empty(),
        }
    }
}

impl Buffer {
    pub fn is_matrix_thread(&self) -> (yes: bool)
        ensures
            yes == self@.is_thread(),
    {
        same_text(self.plugin.as_str(), "matrix") && self.matrix_room_id.is_some()
            && self.matrix_thread_root.is_some()
    }

    pub fn own_mention_aliases(&self) -> (aliases: Vec<String>)
        ensures
            texts(aliases@) == self@.own_aliases(),
    {
        let mut aliases: Vec<String> = Vec::new();
        if self.own_nick.as_str().is_empty() {
            assert(texts(aliases@) =~= Seq::empty());
            return aliases;
        }
        aliases.push(self.own_nick.clone());
        assert(texts(aliases@) =~= seq![self.own_nick@]);
        if !same_text(self.plugin.as_str(), "matrix") {
            return aliases;
        }
        match str_first_word(self.own_nick.as_str()) {
            Some(word) => {
                if chars_of(word.as_str()).len() >= 3 {
                    aliases.push(word);
                }
            },
            None => {},
        }
        assert(texts(aliases@) =~= seq![self.own_nick@] + self@.first_name_alias());
        let ghost shown = texts(aliases@);
        let ghost p = |c: CandidateView| c.display_name == self@.own_nick;
        let mut i: usize = 0;
        while i < self.mention_candidates.len()
            invariant
                i <= self.mention_candidates@.len(),
                p == (|c: CandidateView| c.display_name == self@.own_nick),
                first_index(self@.mention_candidates, p) == first_from(
                    self@.mention_candidates,
                    p,
                    i as int,
                ),
                texts(aliases@) == shown,
                shown == seq![self.own_nick@] + self@.first_name_alias(),
                self@.own_aliases() == shown + self@.member_aliases(),
            decreases self.mention_candidates@.len() - i,
        {
            let candidate = &self.mention_candidates[i];
            assert(self@.mention_candidates[i as int] == candidate@);
            if same_text(candidate.display_name.as_str(), self.own_nick.as_str()) {
                aliases.push(candidate.user_id.clone());
                proof {
                    reveal_strlit("@");
                    assert("@"@ =~= seq!['@']);
                }
                match str_strip_prefix(candidate.user_id.as_str(), "@") {
                    Some(id) => {
                        let parts = str_split(id.as_str(), ':');
                        proof {
                            crate::text::lemma_split_on_len(id@, ':');
                            assert(texts(parts@)[0] == parts@[0]@);
                        }
                        aliases.push(parts[0].clone());
                    },
                    None => {},
                }
                assert(texts(aliases@) =~= shown + self@.member_aliases());
                return aliases;
            }
            i = i + 1;
        }
        assert(shown + self@.member_aliases() =~= shown);
        aliases
    }
}

// ---------------------------------------------------------------------------
// Mentions
// ---------------------------------------------------------------------------

pub open spec fn is_word_char(c: char) -> bool {
    alphanumeric(c) || c == '_'
}

/// Whether no word goes on across either end of the part of `len` characters
/// at `at`.
pub open spec fn stands_alone(text: Seq<char>, at: int, len: int) -> bool {
    !(at > 0 && is_word_char(text[at - 1])) && !(at + len < text.len() && is_word_char(
        text[at + len],
    ))
}

/// Whether one of the occurrences of `needle` from `from` on, taken one after
/// the other without overlap, is a whole word.
pub open spec fn word_from(text: Seq<char>, needle: Seq<char>, from: int) -> bool
    decreases text.len() - from,
    via word_from_decreases
{
    if needle.len() == 0 || from < 0 {
        false
    } else {
        match find_from(text, needle, from) {
            Some(at) => stands_alone(text, at, needle.len() as int) || word_from(
                text,
                needle,
                at + needle.len(),
            ),
            None => false,
        }
    }
}

#[via_fn]
proof fn word_from_decreases(text: Seq<char>, needle: Seq<char>, from: int) {
    if from >= 0 {
        lemma_find_from(text, needle, from);
    }
}

/// Whether `message` names one of the aliases as a word of its own, in either
/// case.
pub open spec fn mentions_any(message: Seq<char>, aliases: Seq<Seq<char>>) -> bool {
    exists|i: int|
        0 <= i < aliases.len() && word_from(
            lowercase(message),
            lowercase(#[trigger] aliases[i]),
            0,
        )
}

fn is_word(c: char) -> (yes: bool)
    ensures
        yes == is_word_char(c),
{
    is_alphanumeric(c) || c == '_'
}

/// Whether `needle` occurs in `text` as a word of its own, letter for letter.
pub fn contains_word(text: &str, needle: &str) -> (yes: bool)
    ensures
        yes == word_from(text@, needle@, 0),
{
    let t = chars_of(text);
    let n = chars_of(needle);
    if n.len() == 0 {
        return false;
    }
    let mut from: usize = 0;
    loop
        invariant
            from <= t@.len(),
            t@ == text@,
            n@ == needle@,
            n@.len() > 0,
            word_from(text@, needle@, from as int) == word_from(text@, needle@, 0),
        decreases t@.len() - from,
    {
        let len: usize = t.len();
        match find(t.as_slice(), n.as_slice(), from) {
            Some(at) => {
                let end: usize = at + n.len();
                let left_is_word = at > 0 && is_word(t[at - 1]);
                let right_is_word = end < len && is_word(t[end]);
                if !left_is_word && !right_is_word {
                    return true;
                }
                from = end;
            },
            None => {
                return false;
            },
        }
    }
}

/// Whether `needle` occurs in `text` as a word of its own, in either case.
pub fn contains_word_case_insensitive(text: &str, needle: &str) -> (yes: bool)
    ensures
        yes == word_from(lowercase(text@), lowercase(needle@), 0),
{
    let text = to_lowercase(text);
    let needle = to_lowercase(needle);
    contains_word(text.as_str(), needle.as_str())
}

pub fn message_mentions_any_alias(message: &str, aliases: &[String]) -> (yes: bool)
    ensures
        yes == mentions_any(message@, texts(aliases@)),
{
    let mut i: usize = 0;
    while i < aliases.len()
        invariant
            i <= aliases@.len(),
            forall|j: int|
                0 <= j < i ==> !word_from(
                    lowercase(message@),
                    lowercase(#[trigger] texts(aliases@)[j]),
                    0,
                ),
        decreases aliases@.len() - i,
    {
        assert(texts(aliases@)[i as int] == aliases@[i as int]@);
        if contains_word_case_insensitive(message, aliases[i].as_str()) {
            return true;
        }
        i = i + 1;
    }
    false
}

} // verus!
