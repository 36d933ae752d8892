//! Completing what the user types.
use vstd::prelude::*;
use vstd::string::{StringExecFns, StringSliceAdditionalSpecFns};
use vstd::utf8::encode_utf8;
use crate::models::{CandidateView, MentionCandidate};
use crate::seqs::{first_index, keep_items, position_from, sorted_by, stable_sort, views};
use crate::text::{
    after_byte, alphanumeric, before_byte, byte_len, bytes_in, chars_of, contains, find, find_from,
    is_alphanumeric, is_boundary, is_space, is_whitespace, join3, lemma_find_from, lowercase,
    rsplit_once, same_text, split_bytes, starts_with, str_contains, str_le, str_rsplit_once,
    str_starts_with, text_between, text_le, to_lowercase,
};

verus! {

// ---------------------------------------------------------------------------
// Places in a text
// ---------------------------------------------------------------------------

/// The byte offset of a character, or the end where there are fewer.
pub open spec fn byte_of_char(text: Seq<char>, index: int) -> int {
    byte_len(
        text.take(
            if index <= text.len() {
                index
            } else {
                text.len() as int
            },
        ),
    ) as int
}

pub fn char_to_byte(text: &str, char_index: usize) -> (at: usize)
    ensures
        at == byte_of_char(text@, char_index as int),
{
    let chars = chars_of(text);
    let n: usize = if char_index <= chars.len() {
        char_index
    } else {
        chars.len()
    };
    let head = text_between(chars.as_slice(), 0, n);
    assert(head@ =~= text@.take(n as int));
    bytes_in(head.as_str())
}

/// A character index that does not go beyond the end.
pub open spec fn clipped(text: Seq<char>, index: int) -> int {
    if index <= text.len() {
        index
    } else {
        text.len() as int
    }
}

/// The text between two characters.
pub open spec fn selection(text: Seq<char>, start: int, end: int) -> Seq<char> {
    text.subrange(clipped(text, start), clipped(text, end))
}

/// A text with another one in place of what stands between two characters.
pub open spec fn selection_replaced(
    text: Seq<char>,
    start: int,
    end: int,
    replacement: Seq<char>,
) -> Seq<char> {
    text.take(clipped(text, start)) + replacement + text.skip(clipped(text, end))
}

/// The text between two characters.
pub fn selected_text(text: &str, start: usize, end: usize) -> (selected: String)
    requires
        clipped(text@, start as int) <= clipped(text@, end as int),
    ensures
        selected@ == selection(text@, start as int, end as int),
{
    let chars = chars_of(text);
    let n: usize = chars.len();
    let from: usize = if start <= n {
        start
    } else {
        n
    };
    let to: usize = if end <= n {
        end
    } else {
        n
    };
    text_between(chars.as_slice(), from, to)
}

/// Replaces the text between two characters. The answer is where the cursor
/// stands then.
pub fn replace_selection(text: &mut String, start: usize, end: usize, replacement: &str) -> (cursor:
    usize)
    requires
        clipped(old(text)@, start as int) <= clipped(old(text)@, end as int),
        start + replacement@.len() <= usize::MAX,
    ensures
        final(text)@ == selection_replaced(old(text)@, start as int, end as int, replacement@),
        cursor == start + replacement@.len(),
{
    let chars = chars_of(text.as_str());
    let n: usize = chars.len();
    let from: usize = if start <= n {
        start
    } else {
        n
    };
    let to: usize = if end <= n {
        end
    } else {
        n
    };
    let head = text_between(chars.as_slice(), 0, from);
    let tail = text_between(chars.as_slice(), to, n);
    assert(head@ =~= chars@.take(from as int));
    assert(tail@ =~= chars@.skip(to as int));
    *text = join3(head.as_str(), replacement, tail.as_str());
    start + chars_of(replacement).len()
}

/// What replaced a selection is what is selected from its beginning to the
/// cursor, and all around it stays.
pub proof fn replacement_is_selected(
    text: Seq<char>,
    start: int,
    end: int,
    replacement: Seq<char>,
)
    requires
        0 <= start <= end <= text.len(),
    ensures
        ({
            let changed = selection_replaced(text, start, end, replacement);
            let cursor = start + replacement.len();
            &&& changed == text.take(start) + replacement + text.skip(end)
            &&& selection(changed, start, cursor) == replacement
            &&& selection(changed, 0, start) == selection(text, 0, start)
            &&& changed.skip(cursor) == text.skip(end)
        }),
{
    let changed = selection_replaced(text, start, end, replacement);
    let cursor = start + replacement.len();
    assert(selection(changed, start, cursor) =~= replacement);
    assert(selection(changed, 0, start) =~= selection(text, 0, start));
    assert(changed.skip(cursor) =~= text.skip(end));
}

/// A selection that is replaced by itself leaves the text as it was.
pub proof fn selection_replaces_itself(text: Seq<char>, start: int, end: int)
    requires
        0 <= start <= end,
    ensures
        selection_replaced(text, start, end, selection(text, start, end)) == text,
{
    assert(selection_replaced(text, start, end, selection(text, start, end)) =~= text);
}

/// What was selected can be put back in place of what replaced it.
pub proof fn replacing_back_restores_the_text(
    text: Seq<char>,
    start: int,
    end: int,
    replacement: Seq<char>,
)
    requires
        0 <= start <= end <= text.len(),
    ensures
        selection_replaced(
            selection_replaced(text, start, end, replacement),
            start,
            start + replacement.len(),
            selection(text, start, end),
        ) == text,
{
    assert(selection_replaced(
        selection_replaced(text, start, end, replacement),
        start,
        start + replacement.len(),
        selection(text, start, end),
    ) =~= text);
}

// ---------------------------------------------------------------------------
// Completions that the server offers
// ---------------------------------------------------------------------------

/// Where the word ends that a completion replaces: behind the word that the
/// server named where it stands there, and otherwise at the cursor.
pub open spec fn replaced_end(input: Seq<char>, cursor: int, place: int, base_word: Seq<char>) -> int {
    let end = place + byte_len(base_word);
    if end <= byte_len(input) && is_boundary(input, end) && before_byte(
        after_byte(input, place),
        byte_len(base_word) as int,
    ) == base_word {
        end
    } else {
        cursor
    }
}

/// The input and the cursor, in characters, after a completion.
pub open spec fn completed(
    input: Seq<char>,
    cursor: int,
    place: int,
    base_word: Seq<char>,
    matched: Seq<char>,
    add_space: bool,
) -> Option<(Seq<char>, int)> {
    if place > cursor || cursor > byte_len(input) || !is_boundary(input, place) || !is_boundary(
        input,
        cursor,
    ) || place + byte_len(base_word) > usize::MAX {
        None
    } else {
        let suffix = after_byte(input, replaced_end(input, cursor, place, base_word));
        let head = before_byte(input, place) + matched;
        if !add_space {
            Some((head + suffix, head.len() as int))
        } else if starts_with(suffix, " "@) {
            Some((head + suffix, (head.len() + 1) as int))
        } else {
            Some((head + " "@ + suffix, (head.len() + 1) as int))
        }
    }
}

fn replaced_end_of(input: &str, cursor: usize, place: usize, base_word: &str) -> (end: usize)
    requires
        is_boundary(input@, place as int),
        is_boundary(input@, cursor as int),
        place + byte_len(base_word@) <= usize::MAX,
    ensures
        end == replaced_end(input@, cursor as int, place as int, base_word@),
        is_boundary(input@, end as int),
{
    let n: usize = bytes_in(base_word);
    let end: usize = place + n;
    if end <= bytes_in(input) && input.is_char_boundary(end) {
        let rest = split_bytes(input, place).1;
        proof {
            lemma_boundary_in_suffix(input@, place as int, end as int);
        }
        let word = split_bytes(rest.as_str(), n).0;
        if same_text(word.as_str(), base_word) {
            return end;
        }
    }
    cursor
}

/// A boundary of a text is one of its end.
proof fn lemma_boundary_in_suffix(text: Seq<char>, from: int, at: int)
    requires
        from <= at,
        is_boundary(text, from),
        is_boundary(text, at),
    ensures
        is_boundary(after_byte(text, from), at - from),
{
    let bytes = encode_utf8(text);
    let tail = bytes.skip(from);
    vstd::utf8::encode_utf8_valid_utf8(text);
    crate::text::lemma_boundary_range(bytes, from);
    crate::text::lemma_boundary_range(bytes, at);
    vstd::utf8::valid_utf8_split(bytes, from);
    assert(bytes.subrange(from, bytes.len() as int) =~= tail);
    vstd::utf8::decode_utf8_encode_utf8(tail);
    assert(encode_utf8(after_byte(text, from)) == tail);
    if at == bytes.len() {
        vstd::utf8::is_char_boundary_start_end_of_seq(tail);
    } else {
        vstd::utf8::is_char_boundary_iff_not_is_continuation_byte(bytes, at);
        vstd::utf8::is_char_boundary_iff_not_is_continuation_byte(tail, at - from);
        assert(tail[at - from] == bytes[at]);
    }
}

/// The input and the cursor, in characters, after a completion that the server
/// offered. Offsets are in bytes; none of them may fall inside a character.
pub fn apply_native_completion(
    input: &str,
    cursor_byte_idx: usize,
    position_replace: usize,
    base_word: &str,
    matched: &str,
    add_space: bool,
) -> (result: Option<(String, usize)>)
    ensures
        match result {
            Some((text, cursor)) => completed(
                input@,
                cursor_byte_idx as int,
                position_replace as int,
                base_word@,
                matched@,
                add_space,
            ) == Some((text@, cursor as int)),
            None => completed(
                input@,
                cursor_byte_idx as int,
                position_replace as int,
                base_word@,
                matched@,
                add_space,
            ) is None,
        },
{
    if position_replace > cursor_byte_idx || cursor_byte_idx > bytes_in(input)
        || !input.is_char_boundary(position_replace) || !input.is_char_boundary(cursor_byte_idx) {
        return None;
    }
    let n: usize = bytes_in(base_word);
    if n > usize::MAX - position_replace {
        return None;
    }
    let end: usize = replaced_end_of(input, cursor_byte_idx, position_replace, base_word);
    let suffix = split_bytes(input, end).1;
    let before = split_bytes(input, position_replace).0;
    let mut text = before;
    text.append(matched);
    let chars = chars_of(text.as_str());
    let mut cursor: usize = chars.len();
    if add_space {
        if !str_starts_with(suffix.as_str(), " ") {
            text.append(" ");
            proof {
                reveal_strlit(" ");
            }
            cursor = chars_of(text.as_str()).len();
            text.append(suffix.as_str());
        } else {
            proof {
                reveal_strlit(" ");
            }
            text.append(suffix.as_str());
            let whole = chars_of(text.as_str());
            let total: usize = whole.len();
            cursor = cursor + 1;
        }
    } else {
        text.append(suffix.as_str());
    }
    Some((text, cursor))
}

// ---------------------------------------------------------------------------
// Mentions
// ---------------------------------------------------------------------------

/// A character that a name can go on with.
pub open spec fn continues_name(c: char) -> bool {
    alphanumeric(c) || c == '_' || c == '-' || c == ':' || c == '.'
}

/// Whether the part of `len` characters at `at` is a mention of its own.
pub open spec fn is_whole_mention(text: Seq<char>, at: int, len: int) -> bool {
    !(at > 0 && (continues_name(text[at - 1]) || text[at - 1] == '@')) && !(at + len < text.len()
        && continues_name(text[at + len]))
}

/// Whether one of the occurrences of a label from `from` on, taken one after
/// the other without overlap, is a mention of its own.
pub open spec fn mention_from(text: Seq<char>, label: Seq<char>, from: int) -> bool
    decreases text.len() + 1 - from,
    via mention_from_decreases
{
    if from < 0 || from > text.len() {
        false
    } else {
        match find_from(text, label, from) {
            Some(at) => is_whole_mention(text, at, label.len() as int) || mention_from(
                text,
                label,
                if label.len() == 0 {
                    at + 1
                } else {
                    at + label.len()
                },
            ),
            None => false,
        }
    }
}

#[via_fn]
proof fn mention_from_decreases(text: Seq<char>, label: Seq<char>, from: int) {
    if from >= 0 {
        lemma_find_from(text, label, from);
    }
}

fn goes_on(c: char) -> (yes: bool)
    ensures
        yes == continues_name(c),
{
    is_alphanumeric(c) || c == '_' || c == '-' || c == ':' || c == '.'
}

/// Whether a text still holds a mention as it was accepted.
pub fn contains_complete_mention(text: &str, label: &str) -> (yes: bool)
    ensures
        yes == mention_from(text@, label@, 0),
{
    let t = chars_of(text);
    let l = chars_of(label);
    let n: usize = t.len();
    let mut from: usize = 0;
    while from <= n
        invariant
            n == t@.len(),
            n <= usize::MAX,
            t@ == text@,
            l@ == label@,
            from <= n + 1,
            mention_from(text@, label@, from as int) == mention_from(text@, label@, 0),
        decreases n + 1 - from,
    {
        match find(t.as_slice(), l.as_slice(), from) {
            Some(at) => {
                let len: usize = l.len();
                let end: usize = at + len;
                let joined_before = at > 0 && (goes_on(t[at - 1]) || t[at - 1] == '@');
                let joined_after = end < n && goes_on(t[end]);
                if !joined_before && !joined_after {
                    return true;
                }
                if len == 0 && at == n {
                    assert(!mention_from(text@, label@, n + 1));
                    return false;
                }
                from = if len == 0 {
                    at + 1
                } else {
                    end
                };
            },
            None => {
                return false;
            },
        }
    }
    false
}

/// Whether a mention can begin behind a character.
pub open spec fn opens_mention(c: char) -> bool {
    is_space(c) || c == '(' || c == '[' || c == '{' || c == '"' || c == '\''
}

/// Whether a mention begins at `at`.
pub open spec fn mention_begins(text: Seq<char>, at: int) -> bool {
    text[at] == '@' && (at == 0 || opens_mention(text[at - 1]))
}

/// The last place before `n` where a mention begins.
pub open spec fn last_trigger(text: Seq<char>, n: int) -> Option<int>
    decreases n,
{
    if n <= 0 {
        None
    } else if mention_begins(text, n - 1) {
        Some(n - 1)
    } else {
        last_trigger(text, n - 1)
    }
}

/// The longest text that is looked for as a mention.
pub const MAX_MENTION_QUERY: usize = 80;

/// Where a mention begins, in bytes, where the cursor stands, in bytes, and what
/// was typed of it.
pub open spec fn query_at(text: Seq<char>, cursor: int) -> Option<(int, int, Seq<char>)> {
    let end = clipped(text, cursor);
    match last_trigger(text, end) {
        Some(at) => {
            let query = text.subrange(at + 1, end);
            if query.len() > 0 && is_space(query[0]) || query.len() > MAX_MENTION_QUERY {
                None
            } else {
                Some((byte_len(text.take(at)) as int, byte_len(text.take(end)) as int, query))
            }
        },
        None => None,
    }
}

/// The mention that is being typed at a cursor.
pub fn mention_query(text: &str, cursor_char_idx: usize) -> (found: Option<(usize, usize, String)>)
    ensures
        match found {
            Some((trigger, cursor, query)) => query_at(text@, cursor_char_idx as int) == Some(
                (trigger as int, cursor as int, query@),
            ),
            None => query_at(text@, cursor_char_idx as int) is None,
        },
{
    let t = chars_of(text);
    let end: usize = if cursor_char_idx <= t.len() {
        cursor_char_idx
    } else {
        t.len()
    };
    let mut n: usize = end;
    while n > 0 && !(t[n - 1] == '@' && (n == 1 || is_whitespace(t[n - 2]) || t[n - 2] == '('
        || t[n - 2] == '[' || t[n - 2] == '{' || t[n - 2] == '"' || t[n - 2] == '\''))
        invariant
            n <= end <= t@.len(),
            t@ == text@,
            last_trigger(text@, end as int) == last_trigger(text@, n as int),
        decreases n,
    {
        n = n - 1;
    }
    if n == 0 {
        return None;
    }
    let at: usize = n - 1;
    let query = text_between(t.as_slice(), n, end);
    if end > n && is_whitespace(t[n]) || end - n > MAX_MENTION_QUERY {
        return None;
    }
    let trigger: usize = char_to_byte(text, at);
    let cursor: usize = char_to_byte(text, end);
    Some((trigger, cursor, query))
}

// ---------------------------------------------------------------------------
// Whom a mention can name
// ---------------------------------------------------------------------------

/// How many candidates are offered.
pub const MAX_OFFERED: usize = 8;

/// A candidate with its names in lower case.
#[derive(Debug)]
pub struct KeyedCandidate {
    pub candidate: MentionCandidate,
    pub name: String,
    pub id: String,
}

pub ghost struct KeyedView {
    pub candidate: CandidateView,
    pub name: Seq<char>,
    pub id: Seq<char>,
}

impl View for KeyedCandidate {
    type V = KeyedView;

    open spec fn view(&self) -> KeyedView {
        KeyedView { candidate: self.candidate@, name: self.name@, id: self.id@ }
    }
}

pub open spec fn keyed(c: CandidateView) -> KeyedView {
    KeyedView {
        candidate: c,
        name: lowercase(c.display_name),
        id: lowercase(c.user_id),
    }
}

pub open spec fn keyed_all(candidates: Seq<CandidateView>) -> Seq<KeyedView> {
    candidates.map_values(|c: CandidateView| keyed(c))
}

/// An id without the signs that it begins with.
pub open spec fn bare_id(id: Seq<char>) -> Seq<char>
    decreases id.len(),
{
    if id.len() > 0 && id[0] == '@' {
        bare_id(id.skip(1))
    } else {
        id
    }
}

pub open spec fn is_match(k: KeyedView, query: Seq<char>) -> bool {
    contains(k.name, query) || contains(k.id, query)
}

/// Names that begin with the query first, then ids that do, then by name and by
/// id.
pub open spec fn match_le(a: KeyedView, b: KeyedView, query: Seq<char>) -> bool {
    if starts_with(a.name, query) != starts_with(b.name, query) {
        starts_with(a.name, query)
    } else if starts_with(bare_id(a.id), query) != starts_with(bare_id(b.id), query) {
        starts_with(bare_id(a.id), query)
    } else if a.name != b.name {
        text_le(a.name, b.name)
    } else {
        text_le(a.id, b.id)
    }
}

/// The candidates that match, the best first.
pub open spec fn ranked_matches(list: Seq<KeyedView>, query: Seq<char>) -> Seq<KeyedView> {
    sorted_by(
        list.filter(|k: KeyedView| is_match(k, query)),
        |a: KeyedView, b: KeyedView| match_le(a, b, query),
    )
}

/// The server of a user.
pub open spec fn homeserver(c: CandidateView) -> Seq<char> {
    match rsplit_once(c.user_id, ":"@) {
        Some((_, server)) => server,
        None => Seq::empty(),
    }
}

/// The candidates by server, the servers in the order in which they first
/// occur.
pub open spec fn by_homeserver(list: Seq<CandidateView>) -> Seq<(Seq<char>, Seq<CandidateView>)>
    decreases list.len(),
{
    if list.len() == 0 {
        Seq::empty()
    } else {
        let groups = by_homeserver(list.drop_last());
        let c = list.last();
        match first_index(groups, |g: (Seq<char>, Seq<CandidateView>)| g.0 == homeserver(c)) {
            Some(i) => groups.update(i, (groups[i].0, groups[i].1.push(c))),
            None => groups.push((homeserver(c), seq![c])),
        }
    }
}

/// One candidate of each of the first `n` servers: the one at `round`.
pub open spec fn round_of(
    groups: Seq<(Seq<char>, Seq<CandidateView>)>,
    round: int,
    n: nat,
) -> Seq<CandidateView>
    decreases n,
{
    if n == 0 || n > groups.len() {
        Seq::empty()
    } else {
        let before = round_of(groups, round, (n - 1) as nat);
        if 0 <= round < groups[n - 1].1.len() {
            before.push(groups[n - 1].1[round])
        } else {
            before
        }
    }
}

/// The first rounds through the servers.
pub open spec fn rounds(groups: Seq<(Seq<char>, Seq<CandidateView>)>, count: nat) -> Seq<CandidateView>
    decreases count,
{
    if count == 0 {
        Seq::empty()
    } else {
        rounds(groups, (count - 1) as nat) + round_of(groups, count - 1, groups.len())
    }
}

pub open spec fn at_most<A>(list: Seq<A>, n: int) -> Seq<A> {
    if list.len() > n {
        list.take(n)
    } else {
        list
    }
}

pub open spec fn candidates_of(list: Seq<KeyedView>) -> Seq<CandidateView> {
    list.map_values(|k: KeyedView| k.candidate)
}

/// The candidates that are offered. Without a query every server is represented
/// before a second user of one is offered.
pub open spec fn offered(list: Seq<KeyedView>, query: Seq<char>) -> Seq<CandidateView> {
    let ranked = candidates_of(ranked_matches(list, query));
    if query.len() == 0 {
        at_most(rounds(by_homeserver(ranked), MAX_OFFERED as nat), MAX_OFFERED as int)
    } else {
        at_most(ranked, MAX_OFFERED as int)
    }
}

fn bare(id: &str) -> (out: String)
    ensures
        out@ == bare_id(id@),
{
    let chars = chars_of(id);
    let mut i: usize = 0;
    assert(chars@.skip(0) =~= chars@);
    while i < chars.len() && chars[i] == '@'
        invariant
            i <= chars@.len(),
            chars@ == id@,
            bare_id(id@) == bare_id(chars@.skip(i as int)),
        decreases chars@.len() - i,
    {
        assert(chars@.skip(i as int).skip(1) =~= chars@.skip(i + 1));
        i = i + 1;
    }
    text_between(chars.as_slice(), i, chars.len())
}

fn at_or_before(a: &KeyedCandidate, b: &KeyedCandidate, query: &str) -> (yes: bool)
    ensures
        yes == match_le(a@, b@, query@),
{
    let na = str_starts_with(a.name.as_str(), query);
    let nb = str_starts_with(b.name.as_str(), query);
    if na != nb {
        return na;
    }
    let ia = str_starts_with(bare(a.id.as_str()).as_str(), query);
    let ib = str_starts_with(bare(b.id.as_str()).as_str(), query);
    if ia != ib {
        return ia;
    }
    if !same_text(a.name.as_str(), b.name.as_str()) {
        str_le(a.name.as_str(), b.name.as_str())
    } else {
        str_le(a.id.as_str(), b.id.as_str())
    }
}

/// The users of one server.
#[derive(Debug)]
pub struct ServerGroup {
    pub server: String,
    pub users: Vec<MentionCandidate>,
}

impl View for ServerGroup {
    type V = (Seq<char>, Seq<CandidateView>);

    open spec fn view(&self) -> (Seq<char>, Seq<CandidateView>) {
        (self.server@, views(self.users@))
    }
}

fn homeserver_of(c: &MentionCandidate) -> (server: String)
    ensures
        server@ == homeserver(c@),
{
    match str_rsplit_once(c.user_id.as_str(), ":") {
        Some((_, server)) => server,
        None => String::new(),
    }
}

fn group_by_homeserver(list: &Vec<MentionCandidate>) -> (groups: Vec<ServerGroup>)
    ensures
        views(groups@) == by_homeserver(views(list@)),
{
    let ghost all = views(list@);
    let mut groups: Vec<ServerGroup> = Vec::new();
    let mut i: usize = 0;
    assert(views(groups@) =~= by_homeserver(all.take(0)));
    while i < list.len()
        invariant
            i <= list@.len(),
            all == views(list@),
            views(groups@) == by_homeserver(all.take(i as int)),
        decreases list@.len() - i,
    {
        let c = list[i].clone();
        let server = homeserver_of(&c);
        assert(all.take(i + 1).drop_last() =~= all.take(i as int));
        assert(all.take(i + 1).last() == c@);
        let name = server.as_str();
        let found = |g: &ServerGroup| -> (r: bool)
            ensures
                r == (g@.0 == name@),
            { same_text(g.server.as_str(), name) };
        let ghost before = groups@;
        match position_from(
            groups.as_slice(),
            0,
            found,
            Ghost(|g: (Seq<char>, Seq<CandidateView>)| g.0 == homeserver(c@)),
        ) {
            Some(k) => {
                let ghost users = groups@[k as int].users@;
                groups[k].users.push(c);
                proof {
                    assert(views(groups@[k as int].users@) =~= views(users).push(c@));
                    assert(views(before)[k as int] == before[k as int]@);
                    assert(views(groups@) =~= views(before).update(
                        k as int,
                        (views(before)[k as int].0, views(before)[k as int].1.push(c@)),
                    ));
                }
            },
            None => {
                let mut users: Vec<MentionCandidate> = Vec::new();
                users.push(c);
                assert(views(users@) =~= seq![c@]);
                groups.push(ServerGroup { server, users });
                assert(views(groups@) =~= views(before).push((homeserver(c@), seq![c@])));
            },
        }
        i = i + 1;
    }
    assert(all.take(i as int) =~= all);
    groups
}

fn pick_rounds(groups: &Vec<ServerGroup>) -> (picked: Vec<MentionCandidate>)
    ensures
        views(picked@) == rounds(views(groups@), MAX_OFFERED as nat),
{
    let ghost all = views(groups@);
    let mut picked: Vec<MentionCandidate> = Vec::new();
    let mut round: usize = 0;
    assert(views(picked@) =~= rounds(all, 0));
    while round < MAX_OFFERED
        invariant
            round <= MAX_OFFERED,
            all == views(groups@),
            views(picked@) == rounds(all, round as nat),
        decreases MAX_OFFERED - round,
    {
        let ghost start = views(picked@);
        let mut n: usize = 0;
        assert(start + round_of(all, round as int, 0) =~= start);
        while n < groups.len()
            invariant
                n <= groups@.len(),
                all == views(groups@),
                views(picked@) == start + round_of(all, round as int, n as nat),
            decreases groups@.len() - n,
        {
            let ghost before = picked@;
            assert(all[n as int] == groups@[n as int]@);
            if round < groups[n].users.len() {
                assert(all[n as int].1[round as int] == groups@[n as int].users@[round as int]@);
                picked.push(groups[n].users[round].clone());
                assert(views(picked@) =~= views(before).push(all[n as int].1[round as int]));
                assert(views(before).push(all[n as int].1[round as int]) =~= start + round_of(
                    all,
                    round as int,
                    n as nat,
                ).push(all[n as int].1[round as int]));
            }
            n = n + 1;
        }
        round = round + 1;
    }
    picked
}

fn bare_candidates(list: &Vec<KeyedCandidate>) -> (out: Vec<MentionCandidate>)
    ensures
        views(out@) == candidates_of(views(list@)),
{
    let mut out: Vec<MentionCandidate> = Vec::new();
    let mut i: usize = 0;
    while i < list.len()
        invariant
            i <= list@.len(),
            out@.len() == i,
            forall|j: int| 0 <= j < i ==> (#[trigger] out@[j])@ == list@[j]@.candidate,
        decreases list@.len() - i,
    {
        out.push(list[i].candidate.clone());
        i = i + 1;
    }
    assert(views(out@) =~= candidates_of(views(list@)));
    out
}

/// The candidates that are offered, given their names and the query in lower
/// case.
pub fn matching_mentions_in(list: Vec<KeyedCandidate>, query: &str) -> (matches: Vec<
    MentionCandidate,
>)
    ensures
        views(matches@) == offered(views(list@), query@),
{
    let keep = |k: &KeyedCandidate| -> (r: bool)
        ensures
            r == is_match(k@, query@),
        { str_contains(k.name.as_str(), query) || str_contains(k.id.as_str(), query) };
    let found = keep_items(list, keep, Ghost(|k: KeyedView| is_match(k, query@)));
    let compare = |a: &KeyedCandidate, b: &KeyedCandidate| -> (r: bool)
        ensures
            r == match_le(a@, b@, query@),
        { at_or_before(a, b, query) };
    let ranked = stable_sort(
        found,
        compare,
        Ghost(|a: KeyedView, b: KeyedView| match_le(a, b, query@)),
    );
    let mut matches = bare_candidates(&ranked);
    if query.is_empty() {
        let groups = group_by_homeserver(&matches);
        matches = pick_rounds(&groups);
    }
    let ghost whole = views(matches@);
    if matches.len() > MAX_OFFERED {
        matches.truncate(MAX_OFFERED);
        assert(views(matches@) =~= whole.take(MAX_OFFERED as int));
    }
    matches
}

/// The candidates that are offered for a query.
pub fn matching_mentions(candidates: &Vec<MentionCandidate>, query: &str) -> (matches: Vec<
    MentionCandidate,
>)
    ensures
        views(matches@) == offered(keyed_all(views(candidates@)), lowercase(query@)),
{
    let query = to_lowercase(query);
    let mut list: Vec<KeyedCandidate> = Vec::new();
    let mut i: usize = 0;
    while i < candidates.len()
        invariant
            i <= candidates@.len(),
            list@.len() == i,
            forall|j: int| 0 <= j < i ==> (#[trigger] list@[j])@ == keyed(candidates@[j]@),
        decreases candidates@.len() - i,
    {
        let candidate = candidates[i].clone();
        let name = to_lowercase(candidate.display_name.as_str());
        let id = to_lowercase(candidate.user_id.as_str());
        list.push(KeyedCandidate { candidate, name, id });
        i = i + 1;
    }
    assert(views(list@) =~= keyed_all(views(candidates@)));
    matching_mentions_in(list, query.as_str())
}

/// No more than eight candidates are offered.
pub proof fn few_candidates_are_offered(list: Seq<KeyedView>, query: Seq<char>)
    ensures
        offered(list, query).len() <= MAX_OFFERED,
{
}

/// The command that answers an event.
pub fn matrix_reply_command(event_id: &str, message: &str) -> (command: String)
    ensures
        command@ == "/reply "@ + event_id@ + " "@ + message@,
{
    let mut command = join3("/reply ", event_id, " ");
    command.append(message);
    command
}

} // verus!
