//! Text as sequences of characters: searching, splitting, trimming, numbers,
//! order. Every function works on characters, never on byte offsets.
use vstd::prelude::*;
use vstd::slice::slice_subrange;
use vstd::utf8::{
    decode_utf8, decode_utf8_split, encode_utf8, encode_utf8_decode_utf8, encode_utf8_valid_utf8,
    is_char_boundary, valid_utf8,
};
use vstd::string::{StringExecFns, StringSliceAdditionalSpecFns};

verus! {

// ---------------------------------------------------------------------------
// What the standard library gives
// ---------------------------------------------------------------------------

/// `String::push` appends one character.
pub assume_specification[ String::push ](text: &mut String, c: char)
    ensures
        final(text)@ == old(text)@.push(c),
;

/// What `str::to_lowercase` gives for a text.
pub uninterp spec fn lowercase(text: Seq<char>) -> Seq<char>;

/// What `char::to_uppercase` gives for a character, as a text.
pub uninterp spec fn uppercase(c: char) -> Seq<char>;

/// What `str::to_uppercase` gives for a text.
pub uninterp spec fn uppercase_text(text: Seq<char>) -> Seq<char>;

/// What `char::is_alphanumeric` says of a character.
pub uninterp spec fn alphanumeric(c: char) -> bool;

/// `str::to_lowercase`: the Unicode lowercase of a text. An ASCII text is
/// lowered letter by letter. Every character becomes one or more, so that a text
/// of at least one character does not become empty.
#[verifier::external_body]
pub(crate) fn to_lowercase(text: &str) -> (lowered: String)
    ensures
        lowered@ == lowercase(text@),
        (forall|i: int| 0 <= i < text@.len() ==> is_ascii_char(#[trigger] text@[i])) ==> lowered@
            == ascii_lowercase(text@),
        text@.len() > 0 ==> lowered@.len() > 0,
{
    text.to_lowercase()
}

/// `char::to_uppercase`: the Unicode uppercase of a character, which may be
/// several characters. An ASCII character is raised by itself.
#[verifier::external_body]
pub(crate) fn to_uppercase(c: char) -> (raised: String)
    ensures
        raised@ == uppercase(c),
        is_ascii_char(c) ==> raised@ == seq![ascii_upper(c)],
{
    c.to_uppercase().to_string()
}

/// `str::to_uppercase`: the Unicode uppercase of a text. An ASCII text is
/// raised letter by letter.
#[verifier::external_body]
pub(crate) fn to_uppercase_text(text: &str) -> (raised: String)
    ensures
        raised@ == uppercase_text(text@),
        (forall|i: int| 0 <= i < text@.len() ==> is_ascii_char(#[trigger] text@[i])) ==> raised@
            == ascii_uppercase(text@),
{
    text.to_uppercase()
}

/// `char::is_alphanumeric`: the Unicode alphabetic or numeric property. Among
/// the ASCII characters exactly the letters and the digits have it.
#[verifier::external_body]
pub(crate) fn is_alphanumeric(c: char) -> (yes: bool)
    ensures
        yes == alphanumeric(c),
        is_ascii_char(c) ==> yes == (is_ascii_letter(c) || is_digit(c)),
{
    c.is_alphanumeric()
}

// ---------------------------------------------------------------------------
// Characters
// ---------------------------------------------------------------------------

pub open spec fn is_ascii_char(c: char) -> bool {
    (c as u32) < 128
}

pub open spec fn is_digit(c: char) -> bool {
    '0' <= c <= '9'
}

pub open spec fn is_ascii_letter(c: char) -> bool {
    'a' <= c <= 'z' || 'A' <= c <= 'Z'
}

pub open spec fn ascii_lower(c: char) -> char {
    if 'A' <= c <= 'Z' {
        (c as u32 + 32) as u8 as char
    } else {
        c
    }
}

pub open spec fn ascii_upper(c: char) -> char {
    if 'a' <= c <= 'z' {
        (c as u32 - 32) as u8 as char
    } else {
        c
    }
}

pub open spec fn ascii_lowercase(text: Seq<char>) -> Seq<char> {
    text.map_values(|c: char| ascii_lower(c))
}

pub open spec fn ascii_uppercase(text: Seq<char>) -> Seq<char> {
    text.map_values(|c: char| ascii_upper(c))
}

/// The characters with the Unicode `White_Space` property.
pub open spec fn is_space(c: char) -> bool {
    let v = c as u32;
    9 <= v <= 13 || v == 0x20 || v == 0x85 || v == 0xA0 || v == 0x1680 || 0x2000 <= v <= 0x200A || v
        == 0x2028 || v == 0x2029 || v == 0x202F || v == 0x205F || v == 0x3000
}

/// The white space that `u8::is_ascii_whitespace` knows.
pub open spec fn is_ascii_space(c: char) -> bool {
    let v = c as u32;
    v == 0x20 || v == 9 || v == 10 || v == 12 || v == 13
}

pub fn is_whitespace(c: char) -> (yes: bool)
    ensures
        yes == is_space(c),
{
    let v: u32 = c as u32;
    9 <= v && v <= 13 || v == 0x20 || v == 0x85 || v == 0xA0 || v == 0x1680 || 0x2000 <= v && v
        <= 0x200A || v == 0x2028 || v == 0x2029 || v == 0x202F || v == 0x205F || v == 0x3000
}

pub fn to_ascii_lower(c: char) -> (lowered: char)
    ensures
        lowered == ascii_lower(c),
{
    if 'A' <= c && c <= 'Z' {
        (c as u8 + 32) as char
    } else {
        c
    }
}

// ---------------------------------------------------------------------------
// Characters and texts
// ---------------------------------------------------------------------------

/// The views of a list of texts.
pub open spec fn texts(list: Seq<String>) -> Seq<Seq<char>> {
    list.map_values(|t: String| t@)
}

/// The view of a text that may be absent.
pub open spec fn opt_text(text: Option<String>) -> Option<Seq<char>> {
    match text {
        Some(t) => Some(t@),
        None => None,
    }
}

/// The view of a borrowed text that may be absent.
pub open spec fn opt_str(text: Option<&str>) -> Option<Seq<char>> {
    match text {
        Some(t) => Some(t@),
        None => None,
    }
}

pub open spec fn opt_index(i: Option<usize>) -> Option<int> {
    match i {
        Some(i) => Some(i as int),
        None => None,
    }
}

pub fn clone_opt(text: &Option<String>) -> (copy: Option<String>)
    ensures
        copy == *text,
        opt_text(copy) == opt_text(*text),
{
    match text {
        Some(t) => Some(t.clone()),
        None => None,
    }
}

pub fn clone_texts(list: &Vec<String>) -> (copy: Vec<String>)
    ensures
        copy@ == list@,
        texts(copy@) == texts(list@),
{
    let mut copy: Vec<String> = Vec::new();
    let mut i: usize = 0;
    while i < list.len()
        invariant
            i <= list@.len(),
            copy@ == list@.take(i as int),
        decreases list@.len() - i,
    {
        copy.push(list[i].clone());
        i = i + 1;
        assert(list@.take(i as int) =~= list@.take(i - 1).push(list@[i - 1]));
    }
    assert(list@.take(i as int) =~= list@);
    copy
}

/// The characters of a text.
pub fn chars_of(text: &str) -> (chars: Vec<char>)
    ensures
        chars@ == text@,
{
    let mut chars: Vec<char> = Vec::new();
    for c in it: text.chars()
        invariant
            chars@ == text@.take(it.index@),
            it.seq() == text@,
    {
        chars.push(c);
        assert(text@.take(it.index@ + 1) =~= text@.take(it.index@).push(c));
    }
    assert(text@.take(text@.len() as int) =~= text@);
    chars
}

/// The text made of the given characters.
pub fn text_of(chars: &[char]) -> (text: String)
    ensures
        text@ == chars@,
{
    let mut text = String::new();
    let mut i: usize = 0;
    while i < chars.len()
        invariant
            i <= chars@.len(),
            text@ == chars@.take(i as int),
        decreases chars@.len() - i,
    {
        text.push(chars[i]);
        i = i + 1;
        assert(chars@.take(i as int) =~= chars@.take(i - 1).push(chars@[i - 1]));
    }
    assert(chars@.take(i as int) =~= chars@);
    text
}

/// The text made of the characters from `from` up to `to`.
pub fn text_between(chars: &[char], from: usize, to: usize) -> (text: String)
    requires
        from <= to <= chars@.len(),
    ensures
        text@ == chars@.subrange(from as int, to as int),
{
    text_of(slice_subrange(chars, from, to))
}

pub fn same_text(a: &str, b: &str) -> (same: bool)
    ensures
        same == (a@ == b@),
{
    let x = a.as_bytes();
    let y = b.as_bytes();
    proof {
        encode_utf8_decode_utf8(a@);
        encode_utf8_decode_utf8(b@);
    }
    if x.len() != y.len() {
        return false;
    }
    let mut i: usize = 0;
    while i < x.len()
        invariant
            i <= x@.len(),
            x@.len() == y@.len(),
            x@ == a.spec_bytes(),
            y@ == b.spec_bytes(),
            forall|j: int| 0 <= j < i ==> x@[j] == y@[j],
        decreases x@.len() - i,
    {
        if x[i] != y[i] {
            return false;
        }
        i = i + 1;
    }
    assert(x@ =~= y@);
    true
}

pub fn same_opt(a: &Option<String>, b: &Option<String>) -> (same: bool)
    ensures
        same == (opt_text(*a) == opt_text(*b)),
{
    match (a, b) {
        (Some(x), Some(y)) => same_text(x.as_str(), y.as_str()),
        (None, None) => true,
        _ => false,
    }
}

/// Whether an optional text is the given one.
pub fn opt_is(a: &Option<String>, b: &str) -> (same: bool)
    ensures
        same == (opt_text(*a) == Some(b@)),
{
    match a {
        Some(x) => same_text(x.as_str(), b),
        None => false,
    }
}

pub fn join2(a: &str, b: &str) -> (joined: String)
    ensures
        joined@ == a@ + b@,
{
    let mut joined = a.to_owned();
    joined.append(b);
    joined
}

pub fn join3(a: &str, b: &str, c: &str) -> (joined: String)
    ensures
        joined@ == a@ + b@ + c@,
{
    let mut joined = a.to_owned();
    joined.append(b);
    joined.append(c);
    joined
}

/// Texts joined by a separator.
pub open spec fn joined_by(parts: Seq<Seq<char>>, separator: Seq<char>) -> Seq<char>
    decreases parts.len(),
{
    if parts.len() == 0 {
        Seq::empty()
    } else if parts.len() == 1 {
        parts[0]
    } else {
        joined_by(parts.drop_last(), separator) + separator + parts.last()
    }
}

/// Texts joined by a separator.
pub fn join_texts(list: &Vec<String>, separator: &str) -> (joined: String)
    ensures
        joined@ == joined_by(texts(list@), separator@),
{
    let mut joined = String::new();
    let mut i: usize = 0;
    assert(texts(list@).take(0) =~= Seq::empty());
    assert(joined@ =~= joined_by(texts(list@).take(0), separator@));
    while i < list.len()
        invariant
            i <= list@.len(),
            joined@ == joined_by(texts(list@).take(i as int), separator@),
        decreases list@.len() - i,
    {
        let ghost parts = texts(list@).take(i + 1);
        assert(parts.drop_last() =~= texts(list@).take(i as int));
        assert(parts.last() == list@[i as int]@);
        if i > 0 {
            joined.append(separator);
        }
        joined.append(list[i].as_str());
        assert(joined@ =~= joined_by(parts, separator@));
        i = i + 1;
    }
    assert(texts(list@).take(i as int) =~= texts(list@));
    joined
}

pub fn text_in(list: &Vec<String>, text: &str) -> (yes: bool)
    ensures
        yes == texts(list@).contains(text@),
{
    let mut i: usize = 0;
    while i < list.len()
        invariant
            i <= list@.len(),
            forall|j: int| 0 <= j < i ==> texts(list@)[j] != text@,
        decreases list@.len() - i,
    {
        if same_text(list[i].as_str(), text) {
            assert(texts(list@)[i as int] == text@);
            return true;
        }
        i = i + 1;
    }
    false
}

// ---------------------------------------------------------------------------
// Searching
// ---------------------------------------------------------------------------

pub open spec fn occurs_at(text: Seq<char>, part: Seq<char>, at: int) -> bool {
    0 <= at && at + part.len() <= text.len() && text.subrange(at, at + part.len()) == part
}

/// The first place at or after `from` where `part` stands in `text`.
pub open spec fn find_from(text: Seq<char>, part: Seq<char>, from: int) -> Option<int>
    decreases text.len() + 1 - from,
{
    if from < 0 || from + part.len() > text.len() {
        None
    } else if occurs_at(text, part, from) {
        Some(from)
    } else {
        find_from(text, part, from + 1)
    }
}

/// The last place at or before `from` where `part` stands in `text`.
pub open spec fn rfind_from(text: Seq<char>, part: Seq<char>, from: int) -> Option<int>
    decreases from + 1,
{
    if from < 0 {
        None
    } else if occurs_at(text, part, from) {
        Some(from)
    } else {
        rfind_from(text, part, from - 1)
    }
}

pub open spec fn contains(text: Seq<char>, part: Seq<char>) -> bool {
    exists|at: int| occurs_at(text, part, at)
}

pub open spec fn starts_with(text: Seq<char>, part: Seq<char>) -> bool {
    occurs_at(text, part, 0)
}

pub open spec fn ends_with(text: Seq<char>, part: Seq<char>) -> bool {
    occurs_at(text, part, text.len() - part.len())
}

pub open spec fn strip_prefix(text: Seq<char>, part: Seq<char>) -> Option<Seq<char>> {
    if starts_with(text, part) {
        Some(text.skip(part.len() as int))
    } else {
        None
    }
}

pub open spec fn strip_suffix(text: Seq<char>, part: Seq<char>) -> Option<Seq<char>> {
    if ends_with(text, part) {
        Some(text.take(text.len() - part.len()))
    } else {
        None
    }
}

/// What stands before and after the first occurrence of `part`.
pub open spec fn split_once(text: Seq<char>, part: Seq<char>) -> Option<(Seq<char>, Seq<char>)> {
    match find_from(text, part, 0) {
        Some(at) => Some((text.take(at), text.skip(at + part.len()))),
        None => None,
    }
}

/// What stands before and after the last occurrence of `part`.
pub open spec fn rsplit_once(text: Seq<char>, part: Seq<char>) -> Option<(Seq<char>, Seq<char>)> {
    match rfind_from(text, part, text.len() - part.len()) {
        Some(at) => Some((text.take(at), text.skip(at + part.len()))),
        None => None,
    }
}

pub proof fn lemma_find_from(text: Seq<char>, part: Seq<char>, from: int)
    requires
        0 <= from,
    ensures
        match find_from(text, part, from) {
            Some(at) => from <= at && occurs_at(text, part, at) && forall|j: int|
                from <= j < at ==> !occurs_at(text, part, j),
            None => forall|j: int| from <= j ==> !occurs_at(text, part, j),
        },
    decreases text.len() + 1 - from,
{
    if from + part.len() <= text.len() && !occurs_at(text, part, from) {
        lemma_find_from(text, part, from + 1);
    }
}

pub proof fn lemma_rfind_from(text: Seq<char>, part: Seq<char>, from: int)
    ensures
        match rfind_from(text, part, from) {
            Some(at) => at <= from && occurs_at(text, part, at) && forall|j: int|
                at < j <= from ==> !occurs_at(text, part, j),
            None => forall|j: int| j <= from ==> !occurs_at(text, part, j),
        },
    decreases from + 1,
{
    if from >= 0 && !occurs_at(text, part, from) {
        lemma_rfind_from(text, part, from - 1);
    }
}

pub fn occurs(text: &[char], part: &[char], at: usize) -> (yes: bool)
    requires
        at <= text@.len(),
    ensures
        yes == occurs_at(text@, part@, at as int),
{
    if text.len() - at < part.len() {
        return false;
    }
    let mut i: usize = 0;
    while i < part.len()
        invariant
            i <= part@.len(),
            at + part@.len() <= text@.len() <= usize::MAX,
            forall|j: int| 0 <= j < i ==> text@[at + j] == part@[j],
        decreases part@.len() - i,
    {
        if text[at + i] != part[i] {
            assert(text@.subrange(at as int, at + part@.len())[i as int] != part@[i as int]);
            return false;
        }
        i = i + 1;
    }
    assert(text@.subrange(at as int, at + part@.len()) =~= part@);
    true
}

pub fn find(text: &[char], part: &[char], from: usize) -> (at: Option<usize>)
    requires
        from <= text@.len(),
    ensures
        opt_index(at) == find_from(text@, part@, from as int),
        at is Some ==> from <= at->0 && at->0 + part@.len() <= text@.len(),
{
    let mut i: usize = from;
    while i <= text.len() && text.len() - i >= part.len()
        invariant
            from <= i <= text@.len() + 1,
            find_from(text@, part@, i as int) == find_from(text@, part@, from as int),
        decreases text@.len() + 1 - i,
    {
        if occurs(text, part, i) {
            return Some(i);
        }
        if i == text.len() {
            assert(part@.len() == 0);
            assert(text@.subrange(i as int, i as int) =~= part@);
        }
        i = i + 1;
    }
    None
}

pub fn rfind(text: &[char], part: &[char]) -> (at: Option<usize>)
    ensures
        opt_index(at) == rfind_from(text@, part@, text@.len() - part@.len()),
        at is Some ==> at->0 + part@.len() <= text@.len(),
{
    if text.len() < part.len() {
        return None;
    }
    let mut i: usize = text.len() - part.len();
    loop
        invariant
            i + part@.len() <= text@.len(),
            rfind_from(text@, part@, i as int) == rfind_from(
                text@,
                part@,
                text@.len() - part@.len(),
            ),
        decreases i,
    {
        if occurs(text, part, i) {
            return Some(i);
        }
        if i == 0 {
            assert(rfind_from(text@, part@, -1) is None);
            return None;
        }
        i = i - 1;
    }
}

pub fn str_contains(text: &str, part: &str) -> (yes: bool)
    ensures
        yes == contains(text@, part@),
{
    let t = chars_of(text);
    let p = chars_of(part);
    proof {
        lemma_find_from(text@, part@, 0);
        assert forall|at: int| occurs_at(text@, part@, at) implies 0 <= at by {}
    }
    find(t.as_slice(), p.as_slice(), 0).is_some()
}

pub fn str_starts_with(text: &str, part: &str) -> (yes: bool)
    ensures
        yes == starts_with(text@, part@),
{
    let t = chars_of(text);
    let p = chars_of(part);
    occurs(t.as_slice(), p.as_slice(), 0)
}

pub fn str_ends_with(text: &str, part: &str) -> (yes: bool)
    ensures
        yes == ends_with(text@, part@),
{
    let t = chars_of(text);
    let p = chars_of(part);
    if t.len() < p.len() {
        return false;
    }
    occurs(t.as_slice(), p.as_slice(), t.len() - p.len())
}

pub fn str_strip_prefix(text: &str, part: &str) -> (rest: Option<String>)
    ensures
        opt_text(rest) == strip_prefix(text@, part@),
{
    let t = chars_of(text);
    let p = chars_of(part);
    if occurs(t.as_slice(), p.as_slice(), 0) {
        Some(text_between(t.as_slice(), p.len(), t.len()))
    } else {
        None
    }
}

pub fn str_strip_suffix(text: &str, part: &str) -> (rest: Option<String>)
    ensures
        opt_text(rest) == strip_suffix(text@, part@),
{
    let t = chars_of(text);
    let p = chars_of(part);
    if t.len() >= p.len() && occurs(t.as_slice(), p.as_slice(), t.len() - p.len()) {
        Some(text_between(t.as_slice(), 0, t.len() - p.len()))
    } else {
        None
    }
}

/// The views of a pair of texts that may be absent.
pub open spec fn opt_pair(pair: Option<(String, String)>) -> Option<(Seq<char>, Seq<char>)> {
    match pair {
        Some((a, b)) => Some((a@, b@)),
        None => None,
    }
}

pub fn str_split_once(text: &str, part: &str) -> (halves: Option<(String, String)>)
    ensures
        opt_pair(halves) == split_once(text@, part@),
{
    let t = chars_of(text);
    let p = chars_of(part);
    let n: usize = t.len();
    match find(t.as_slice(), p.as_slice(), 0) {
        Some(at) => Some(
            (
                text_between(t.as_slice(), 0, at),
                text_between(t.as_slice(), at + p.len(), n),
            ),
        ),
        None => None,
    }
}

pub fn str_rsplit_once(text: &str, part: &str) -> (halves: Option<(String, String)>)
    ensures
        opt_pair(halves) == rsplit_once(text@, part@),
{
    let t = chars_of(text);
    let p = chars_of(part);
    let n: usize = t.len();
    match rfind(t.as_slice(), p.as_slice()) {
        Some(at) => Some(
            (
                text_between(t.as_slice(), 0, at),
                text_between(t.as_slice(), at + p.len(), n),
            ),
        ),
        None => None,
    }
}

/// The parts of `text` between the occurrences of `mark`.
pub open spec fn split_on(text: Seq<char>, mark: char) -> Seq<Seq<char>>
    decreases text.len(),
{
    if text.len() == 0 {
        seq![text]
    } else if text[0] == mark {
        seq![Seq::<char>::empty()] + split_on(text.skip(1), mark)
    } else {
        let rest = split_on(text.skip(1), mark);
        seq![seq![text[0]] + rest[0]] + rest.skip(1)
    }
}

pub proof fn lemma_split_on_len(text: Seq<char>, mark: char)
    ensures
        split_on(text, mark).len() >= 1,
    decreases text.len(),
{
    if text.len() > 0 {
        lemma_split_on_len(text.skip(1), mark);
    }
}

proof fn lemma_split_on_piece(text: Seq<char>, mark: char, i: int, end: int)
    requires
        0 <= i <= end <= text.len(),
        forall|j: int| i <= j < end ==> text[j] != mark,
        end == text.len() || text[end] == mark,
    ensures
        split_on(text.skip(i), mark) == (if end == text.len() {
            seq![text.subrange(i, end)]
        } else {
            seq![text.subrange(i, end)] + split_on(text.skip(end + 1), mark)
        }),
    decreases end - i,
{
    let rest = text.skip(i);
    if i == end {
        if end < text.len() {
            assert(rest.skip(1) =~= text.skip(end + 1));
            assert(text.subrange(i, end) =~= Seq::<char>::empty());
        } else {
            assert(text.subrange(i, end) =~= rest);
        }
    } else {
        lemma_split_on_piece(text, mark, i + 1, end);
        assert(rest.skip(1) =~= text.skip(i + 1));
        assert(seq![rest[0]] + text.subrange(i + 1, end) =~= text.subrange(i, end));
        let tail = split_on(text.skip(i + 1), mark);
        if end == text.len() {
            assert(tail.skip(1) =~= Seq::<Seq<char>>::empty());
            assert(seq![seq![rest[0]] + tail[0]] + tail.skip(1) =~= seq![text.subrange(i, end)]);
        } else {
            assert(tail.skip(1) =~= split_on(text.skip(end + 1), mark));
        }
    }
}

pub fn str_split(text: &str, mark: char) -> (parts: Vec<String>)
    ensures
        texts(parts@) == split_on(text@, mark),
{
    let t = chars_of(text);
    let mut parts: Vec<String> = Vec::new();
    let mut start: usize = 0;
    let mut i: usize = 0;
    assert(text@.skip(0) =~= text@);
    assert(texts(parts@) + split_on(text@, mark) =~= split_on(text@, mark));
    loop
        invariant
            start <= i <= t@.len(),
            t@ == text@,
            forall|j: int| start <= j < i ==> t@[j] != mark,
            texts(parts@) + split_on(text@.skip(start as int), mark) == split_on(text@, mark),
        decreases t@.len() + 1 - i, t@.len() + 1 - start,
    {
        if i == t.len() {
            proof {
                lemma_split_on_piece(text@, mark, start as int, i as int);
            }
            let ghost before = parts@;
            parts.push(text_between(t.as_slice(), start, i));
            assert(texts(parts@) =~= texts(before) + seq![text@.subrange(start as int, i as int)]);
            return parts;
        }
        if t[i] == mark {
            proof {
                lemma_split_on_piece(text@, mark, start as int, i as int);
            }
            let ghost before = parts@;
            parts.push(text_between(t.as_slice(), start, i));
            assert(texts(parts@) + split_on(text@.skip(i + 1), mark) =~= texts(before) + (seq![
                text@.subrange(start as int, i as int),
            ] + split_on(text@.skip(i + 1), mark)));
            start = i + 1;
        }
        i = i + 1;
    }
}

/// The text from `at` on with every occurrence of `part` replaced.
pub open spec fn replaced_from(text: Seq<char>, part: Seq<char>, by: Seq<char>, at: int) -> Seq<char>
    decreases text.len() - at,
    via replaced_from_decreases
{
    if part.len() == 0 || at < 0 || at > text.len() {
        Seq::empty()
    } else {
        match find_from(text, part, at) {
            Some(i) => text.subrange(at, i) + by + replaced_from(text, part, by, i + part.len()),
            None => text.skip(at),
        }
    }
}

#[via_fn]
proof fn replaced_from_decreases(text: Seq<char>, part: Seq<char>, by: Seq<char>, at: int) {
    if at >= 0 {
        lemma_find_from(text, part, at);
    }
}

/// The text with every occurrence of `part` replaced, from the front on and
/// without overlap.
pub open spec fn replaced(text: Seq<char>, part: Seq<char>, by: Seq<char>) -> Seq<char> {
    replaced_from(text, part, by, 0)
}

pub fn str_replace(text: &str, part: &str, by: &str) -> (result: String)
    requires
        part@.len() > 0,
    ensures
        result@ == replaced(text@, part@, by@),
{
    let t = chars_of(text);
    let p = chars_of(part);
    let mut out = String::new();
    let mut at: usize = 0;
    assert(out@ + replaced(text@, part@, by@) =~= replaced(text@, part@, by@));
    loop
        invariant
            at <= t@.len(),
            t@ == text@,
            p@ == part@,
            p@.len() > 0,
            out@ + replaced_from(text@, part@, by@, at as int) == replaced(text@, part@, by@),
        decreases t@.len() - at,
    {
        let n: usize = t.len();
        let ghost before = out@;
        match find(t.as_slice(), p.as_slice(), at) {
            Some(i) => {
                out.append(text_between(t.as_slice(), at, i).as_str());
                out.append(by);
                let next: usize = i + p.len();
                assert(out@ + replaced_from(text@, part@, by@, next as int) =~= before + (
                text@.subrange(at as int, i as int) + by@ + replaced_from(
                    text@,
                    part@,
                    by@,
                    next as int,
                )));
                at = next;
            },
            None => {
                out.append(text_between(t.as_slice(), at, n).as_str());
                assert(text@.subrange(at as int, n as int) =~= text@.skip(at as int));
                return out;
            },
        }
    }
}

// ---------------------------------------------------------------------------
// Trimming and words
// ---------------------------------------------------------------------------

pub open spec fn trim_start(text: Seq<char>) -> Seq<char>
    decreases text.len(),
{
    if text.len() > 0 && is_space(text[0]) {
        trim_start(text.skip(1))
    } else {
        text
    }
}

pub open spec fn trim_end(text: Seq<char>) -> Seq<char>
    decreases text.len(),
{
    if text.len() > 0 && is_space(text.last()) {
        trim_end(text.drop_last())
    } else {
        text
    }
}

pub open spec fn trim(text: Seq<char>) -> Seq<char> {
    trim_end(trim_start(text))
}

pub fn trim_start_index(text: &[char]) -> (i: usize)
    ensures
        i <= text@.len(),
        trim_start(text@) == text@.skip(i as int),
{
    let mut i: usize = 0;
    assert(text@.skip(0) =~= text@);
    while i < text.len() && is_whitespace(text[i])
        invariant
            i <= text@.len(),
            trim_start(text@) == trim_start(text@.skip(i as int)),
        decreases text@.len() - i,
    {
        assert(text@.skip(i as int).skip(1) =~= text@.skip(i + 1));
        i = i + 1;
    }
    i
}

pub fn str_trim_start(text: &str) -> (trimmed: String)
    ensures
        trimmed@ == trim_start(text@),
{
    let t = chars_of(text);
    let from: usize = trim_start_index(t.as_slice());
    text_between(t.as_slice(), from, t.len())
}

pub fn str_trim(text: &str) -> (trimmed: String)
    ensures
        trimmed@ == trim(text@),
{
    let t = chars_of(text);
    let from: usize = trim_start_index(t.as_slice());
    let mut to: usize = t.len();
    assert(t@.subrange(from as int, to as int) =~= t@.skip(from as int));
    while to > from && is_whitespace(t[to - 1])
        invariant
            from <= to <= t@.len(),
            trim_end(t@.skip(from as int)) == trim_end(t@.subrange(from as int, to as int)),
        decreases to,
    {
        assert(t@.subrange(from as int, to as int).drop_last() =~= t@.subrange(
            from as int,
            to - 1,
        ));
        to = to - 1;
    }
    text_between(t.as_slice(), from, to)
}

/// The longest beginning of `text` without white space.
pub open spec fn word_prefix(text: Seq<char>) -> Seq<char>
    decreases text.len(),
{
    if text.len() == 0 || is_space(text[0]) {
        Seq::empty()
    } else {
        seq![text[0]] + word_prefix(text.skip(1))
    }
}

/// The first word of `text`, where it has one.
pub open spec fn first_word(text: Seq<char>) -> Option<Seq<char>> {
    let rest = trim_start(text);
    if rest.len() == 0 {
        None
    } else {
        Some(word_prefix(rest))
    }
}

pub proof fn lemma_word_prefix(text: Seq<char>, n: int)
    requires
        0 <= n <= text.len(),
        forall|j: int| 0 <= j < n ==> !is_space(text[j]),
        n == text.len() || is_space(text[n]),
    ensures
        word_prefix(text) == text.take(n),
    decreases n,
{
    if n > 0 {
        lemma_word_prefix(text.skip(1), n - 1);
        assert(text.take(n) =~= seq![text[0]] + text.skip(1).take(n - 1));
    } else {
        assert(text.take(0) =~= Seq::<char>::empty());
    }
}

pub fn str_first_word(text: &str) -> (word: Option<String>)
    ensures
        opt_text(word) == first_word(text@),
{
    let t = chars_of(text);
    let from: usize = trim_start_index(t.as_slice());
    if from == t.len() {
        return None;
    }
    let mut to: usize = from;
    while to < t.len() && !is_whitespace(t[to])
        invariant
            from <= to <= t@.len(),
            forall|j: int| from <= j < to ==> !is_space(t@[j]),
        decreases t@.len() - to,
    {
        to = to + 1;
    }
    proof {
        lemma_word_prefix(t@.skip(from as int), to - from);
        assert(t@.skip(from as int).take(to - from) =~= t@.subrange(from as int, to as int));
    }
    Some(text_between(t.as_slice(), from, to))
}

// ---------------------------------------------------------------------------
// Byte offsets
// ---------------------------------------------------------------------------

/// How many bytes a text takes in UTF-8.
pub open spec fn byte_len(text: Seq<char>) -> nat {
    encode_utf8(text).len()
}

/// Whether a byte offset falls between two characters of a text.
pub open spec fn is_boundary(text: Seq<char>, at: int) -> bool {
    is_char_boundary(encode_utf8(text), at)
}

/// The characters before a byte offset.
pub open spec fn before_byte(text: Seq<char>, at: int) -> Seq<char> {
    decode_utf8(encode_utf8(text).take(at))
}

/// The characters from a byte offset on.
pub open spec fn after_byte(text: Seq<char>, at: int) -> Seq<char> {
    decode_utf8(encode_utf8(text).skip(at))
}

pub fn bytes_in(text: &str) -> (n: usize)
    ensures
        n == byte_len(text@),
{
    text.as_bytes().len()
}

/// The text before a byte offset and the text from it on.
pub fn split_bytes(text: &str, at: usize) -> (halves: (String, String))
    requires
        is_boundary(text@, at as int),
    ensures
        halves.0@ == before_byte(text@, at as int),
        halves.1@ == after_byte(text@, at as int),
        halves.0@ + halves.1@ == text@,
        byte_len(halves.0@) == at,
        at <= byte_len(text@),
{
    proof {
        encode_utf8_valid_utf8(text@);
        lemma_boundary_range(encode_utf8(text@), at as int);
    }
    let (a, b) = text.split_at(at);
    proof {
        encode_utf8_decode_utf8(a@);
        encode_utf8_decode_utf8(b@);
        encode_utf8_decode_utf8(text@);
        decode_utf8_split(encode_utf8(text@), at as int);
        assert(encode_utf8(text@).subrange(0, at as int) =~= encode_utf8(text@).take(at as int));
        assert(encode_utf8(text@).subrange(at as int, encode_utf8(text@).len() as int)
            =~= encode_utf8(text@).skip(at as int));
    }
    (a.to_owned(), b.to_owned())
}

pub proof fn lemma_boundary_range(bytes: Seq<u8>, at: int)
    requires
        valid_utf8(bytes),
        is_char_boundary(bytes, at),
    ensures
        0 <= at <= bytes.len(),
{
}

/// Two texts in a row have their bytes in a row.
pub proof fn lemma_encode_concat(a: Seq<char>, b: Seq<char>)
    ensures
        encode_utf8(a + b) == encode_utf8(a) + encode_utf8(b),
    decreases a.len(),
{
    if a.len() == 0 {
        assert(a + b =~= b);
        assert(encode_utf8(a) + encode_utf8(b) =~= encode_utf8(b));
    } else {
        lemma_encode_concat(a.drop_first(), b);
        assert((a + b).drop_first() =~= a.drop_first() + b);
        assert(encode_utf8(a + b) =~= encode_utf8(a) + encode_utf8(b));
    }
}

/// The bytes of two texts in a row are those of both.
pub proof fn lemma_byte_len_concat(a: Seq<char>, b: Seq<char>)
    ensures
        byte_len(a + b) == byte_len(a) + byte_len(b),
{
    lemma_encode_concat(a, b);
}

/// A text with characters in it has bytes.
pub proof fn lemma_byte_len_positive(text: Seq<char>)
    ensures
        text.len() > 0 ==> byte_len(text) > 0,
        text.len() == 0 ==> byte_len(text) == 0,
{
}

/// The bytes of the first characters of a text end between two characters, and
/// cutting there gives those characters back.
pub proof fn lemma_head_boundary(text: Seq<char>, n: int)
    requires
        0 <= n <= text.len(),
    ensures
        is_boundary(text, byte_len(text.take(n)) as int),
        before_byte(text, byte_len(text.take(n)) as int) == text.take(n),
        after_byte(text, byte_len(text.take(n)) as int) == text.skip(n),
        byte_len(text) == byte_len(text.take(n)) + byte_len(text.skip(n)),
{
    let head = text.take(n);
    let tail = text.skip(n);
    assert(head + tail =~= text);
    lemma_encode_concat(head, tail);
    lemma_concat_boundary(head, tail);
    assert(encode_utf8(text).take(byte_len(head) as int) =~= encode_utf8(head));
    assert(encode_utf8(text).skip(byte_len(head) as int) =~= encode_utf8(tail));
    encode_utf8_decode_utf8(head);
    encode_utf8_decode_utf8(tail);
}

proof fn lemma_concat_boundary(head: Seq<char>, tail: Seq<char>)
    ensures
        is_boundary(head + tail, byte_len(head) as int),
    decreases head.len(),
{
    let text = head + tail;
    encode_utf8_valid_utf8(text);
    if head.len() > 0 {
        let rest = head.drop_first();
        lemma_concat_boundary(rest, tail);
        lemma_encode_concat(head, tail);
        assert(text.drop_first() =~= rest + tail);
        vstd::utf8::encode_utf8_first_scalar(text);
        let bytes = encode_utf8(text);
        assert(vstd::utf8::pop_first_scalar(bytes) =~= encode_utf8(rest + tail));
        assert(byte_len(head) == vstd::utf8::encode_scalar(head[0] as u32).len() + byte_len(rest));
    }
}

// ---------------------------------------------------------------------------
// Numbers
// ---------------------------------------------------------------------------

pub open spec fn digit_value(c: char) -> nat {
    (c as u32 - '0' as u32) as nat
}

pub open spec fn digit_char(d: nat) -> char {
    ('0' as u32 + d) as u8 as char
}

pub open spec fn all_digits(text: Seq<char>) -> bool {
    forall|i: int| 0 <= i < text.len() ==> is_digit(#[trigger] text[i])
}

pub open spec fn digits_value(text: Seq<char>) -> nat
    decreases text.len(),
{
    if text.len() == 0 {
        0
    } else {
        digits_value(text.drop_last()) * 10 + digit_value(text.last())
    }
}

/// The number that `text` spells, where it spells one of at most `max`: an
/// optional plus sign and one or more decimal digits.
pub open spec fn parse_unsigned(text: Seq<char>, max: nat) -> Option<nat> {
    let digits = if text.len() > 0 && text[0] == '+' {
        text.skip(1)
    } else {
        text
    };
    if digits.len() > 0 && all_digits(digits) && digits_value(digits) <= max {
        Some(digits_value(digits))
    } else {
        None
    }
}

/// The decimal digits of a number.
pub open spec fn decimal(n: nat) -> Seq<char>
    decreases n,
{
    if n < 10 {
        seq![digit_char(n)]
    } else {
        decimal(n / 10).push(digit_char(n % 10))
    }
}

/// The decimal digits of a number, after a minus sign where it is negative.
pub open spec fn decimal_int(n: int) -> Seq<char> {
    if n < 0 {
        seq!['-'] + decimal((-n) as nat)
    } else {
        decimal(n as nat)
    }
}

proof fn lemma_digits_value_grows(text: Seq<char>, n: int)
    requires
        0 <= n <= text.len(),
    ensures
        digits_value(text.take(n)) <= digits_value(text),
    decreases text.len(),
{
    if n < text.len() {
        lemma_digits_value_grows(text.drop_last(), n);
        assert(text.drop_last().take(n) =~= text.take(n));
    } else {
        assert(text.take(n) =~= text);
    }
}

pub fn parse_u64(text: &str, max: u64) -> (number: Option<u64>)
    ensures
        match number {
            Some(n) => parse_unsigned(text@, max as nat) == Some(n as nat),
            None => parse_unsigned(text@, max as nat) is None,
        },
{
    let t = chars_of(text);
    let from: usize = if t.len() > 0 && t[0] == '+' {
        1
    } else {
        0
    };
    let ghost digits = if from == 1 {
        text@.skip(1)
    } else {
        text@
    };
    assert(digits =~= t@.skip(from as int));
    if from == t.len() {
        return None;
    }
    let mut value: u64 = 0;
    let mut i: usize = from;
    while i < t.len()
        invariant
            from <= i <= t@.len(),
            digits == t@.skip(from as int),
            digits == (if text@.len() > 0 && text@[0] == '+' {
                text@.skip(1)
            } else {
                text@
            }),
            all_digits(digits.take(i - from)),
            digits_value(digits.take(i - from)) == value,
            value <= max,
        decreases t@.len() - i,
    {
        let c: char = t[i];
        let ghost k = i - from;
        assert(digits[k] == c);
        if c < '0' || '9' < c {
            assert(!is_digit(digits[k]));
            return None;
        }
        let d: u64 = (c as u32 - 48) as u64;
        assert(digits.take(k + 1).drop_last() =~= digits.take(k));
        assert(digits_value(digits.take(k + 1)) == value * 10 + d);
        proof {
            lemma_digits_value_grows(digits, k + 1);
        }
        if value > (u64::MAX - d) / 10 || value * 10 + d > max {
            assert(value * 10 + d > max) by (nonlinear_arith)
                requires
                    value > (u64::MAX - d) / 10 || value * 10 + d > max,
                    max <= u64::MAX,
                    d <= 9,
            ;
            return None;
        }
        value = value * 10 + d;
        i = i + 1;
    }
    assert(digits.take(digits.len() as int) =~= digits);
    Some(value)
}

pub fn u64_text(n: u64) -> (text: String)
    ensures
        text@ == decimal(n as nat),
    decreases n,
{
    if n < 10 {
        let mut text = String::new();
        text.push((48 + n as u8) as char);
        assert(text@ =~= seq![digit_char(n as nat)]);
        text
    } else {
        let mut text = u64_text(n / 10);
        text.push((48 + (n % 10) as u8) as char);
        text
    }
}

pub fn usize_text(n: usize) -> (text: String)
    ensures
        text@ == decimal(n as nat),
{
    u64_text(n as u64)
}

pub fn i64_text(n: i64) -> (text: String)
    ensures
        text@ == decimal_int(n as int),
{
    if n >= 0 {
        u64_text(n as u64)
    } else {
        let magnitude: u64 = if n == i64::MIN {
            0x8000_0000_0000_0000
        } else {
            (-n) as u64
        };
        let digits = u64_text(magnitude);
        let mut text = String::new();
        text.push('-');
        text.append(digits.as_str());
        assert(text@ =~= seq!['-'] + decimal((-n) as nat));
        text
    }
}

// ---------------------------------------------------------------------------
// Order
// ---------------------------------------------------------------------------

/// Whether `a` stands at or before `b` in the order of their code points.
pub open spec fn text_le(a: Seq<char>, b: Seq<char>) -> bool
    decreases a.len(),
{
    if a.len() == 0 {
        true
    } else if b.len() == 0 {
        false
    } else if a[0] != b[0] {
        a[0] < b[0]
    } else {
        text_le(a.skip(1), b.skip(1))
    }
}

pub proof fn lemma_text_le_total(a: Seq<char>, b: Seq<char>)
    ensures
        text_le(a, b) || text_le(b, a),
        text_le(a, b) && text_le(b, a) ==> a == b,
    decreases a.len(),
{
    if a.len() > 0 && b.len() > 0 && a[0] == b[0] {
        lemma_text_le_total(a.skip(1), b.skip(1));
        assert(a =~= seq![a[0]] + a.skip(1));
        assert(b =~= seq![b[0]] + b.skip(1));
    } else if a.len() == 0 && b.len() == 0 {
        assert(a =~= b);
    }
}

pub proof fn lemma_text_le_transitive(a: Seq<char>, b: Seq<char>, c: Seq<char>)
    requires
        text_le(a, b),
        text_le(b, c),
    ensures
        text_le(a, c),
    decreases a.len(),
{
    if a.len() > 0 && b.len() > 0 && c.len() > 0 && a[0] == b[0] && b[0] == c[0] {
        lemma_text_le_transitive(a.skip(1), b.skip(1), c.skip(1));
    }
}

pub fn str_le(a: &str, b: &str) -> (yes: bool)
    ensures
        yes == text_le(a@, b@),
{
    let x = chars_of(a);
    let y = chars_of(b);
    let mut i: usize = 0;
    assert(x@.skip(0) =~= x@);
    assert(y@.skip(0) =~= y@);
    loop
        invariant
            i <= x@.len(),
            i <= y@.len(),
            x@ == a@,
            y@ == b@,
            text_le(x@.skip(i as int), y@.skip(i as int)) == text_le(a@, b@),
        decreases x@.len() - i,
    {
        if i == x.len() {
            return true;
        }
        if i == y.len() {
            return false;
        }
        if x[i] != y[i] {
            return x[i] < y[i];
        }
        assert(x@.skip(i as int).skip(1) =~= x@.skip(i + 1));
        assert(y@.skip(i as int).skip(1) =~= y@.skip(i + 1));
        i = i + 1;
    }
}

} // verus!
