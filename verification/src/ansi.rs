//! Terminal escape sequences in relay texts.
use vstd::prelude::*;
use crate::seqs::views;
use crate::text::{
    chars_of, find, find_from, is_ascii_letter, is_digit, is_space, is_whitespace, opt_index,
    opt_text, clone_opt, parse_u64, parse_unsigned, split_on, str_split, text_between, text_of, texts,
};

verus! {

/// The look of a run of text.
#[derive(Debug, Clone, Copy, PartialEq, Eq, Structural)]
pub struct AnsiStyle {
    /// Colour of the 256-colour palette, where one was chosen.
    pub fg: Option<u8>,
    pub bold: bool,
    pub italic: bool,
    pub underline: bool,
}

/// A run of text in one style, and the address that it links to.
#[derive(Debug)]
pub struct ANSISection {
    pub text: String,
    pub style: AnsiStyle,
    pub url: Option<String>,
}

pub ghost struct SectionView {
    pub text: Seq<char>,
    pub style: AnsiStyle,
    pub url: Option<Seq<char>>,
}

impl View for ANSISection {
    type V = SectionView;

    open spec fn view(&self) -> SectionView {
        SectionView { text: self.text@, style: self.style, url: opt_text(self.url) }
    }
}

impl Clone for ANSISection {
    fn clone(&self) -> (copy: Self)
        ensures
            copy == *self,
    {
        ANSISection { text: self.text.clone(), style: self.style, url: clone_opt(&self.url) }
    }
}

pub open spec fn plain_style() -> AnsiStyle {
    AnsiStyle { fg: None, bold: false, italic: false, underline: false }
}

impl Default for AnsiStyle {
    fn default() -> (style: Self)
        ensures
            style == plain_style(),
    {
        AnsiStyle { fg: None, bold: false, italic: false, underline: false }
    }
}

// ---------------------------------------------------------------------------
// Escape sequences
// ---------------------------------------------------------------------------

pub open spec fn is_param(c: char) -> bool {
    is_digit(c) || c == ';'
}

/// How many parameter characters stand at `from`.
pub open spec fn params_len(text: Seq<char>, from: int) -> nat
    decreases text.len() - from,
{
    if 0 <= from < text.len() && is_param(text[from]) {
        1 + params_len(text, from + 1)
    } else {
        0
    }
}

/// The length of the escape sequence at `at`: the escape character, an opening
/// bracket, parameters, a letter. Zero where there is none.
pub open spec fn escape_len(text: Seq<char>, at: int) -> nat {
    let n = params_len(text, at + 2);
    if 0 <= at && at + 2 + n < text.len() && text[at] == '\x1b' && text[at + 1] == '['
        && is_ascii_letter(text[at + 2 + n]) {
        3 + n
    } else {
        0
    }
}

/// The text from `at` on without its escape sequences.
pub open spec fn stripped_from(text: Seq<char>, at: int) -> Seq<char>
    decreases text.len() - at,
{
    if at < 0 || at >= text.len() {
        Seq::empty()
    } else if escape_len(text, at) > 0 {
        stripped_from(text, at + escape_len(text, at))
    } else {
        seq![text[at]] + stripped_from(text, at + 1)
    }
}

/// The text without its escape sequences.
pub open spec fn stripped(text: Seq<char>) -> Seq<char> {
    stripped_from(text, 0)
}

fn escape_at(text: &[char], at: usize) -> (len: usize)
    requires
        at < text@.len(),
    ensures
        len == escape_len(text@, at as int),
        at + len <= text@.len(),
{
    let n: usize = text.len();
    if text[at] != '\x1b' || n - at < 3 || text[at + 1] != '[' {
        return 0;
    }
    let mut i: usize = at + 2;
    while i < n && (('0' <= text[i] && text[i] <= '9') || text[i] == ';')
        invariant
            at + 2 <= i <= n,
            n == text@.len(),
            params_len(text@, at + 2) == (i - at - 2) + params_len(text@, i as int),
        decreases n - i,
    {
        i = i + 1;
    }
    if i < n && (('a' <= text[i] && text[i] <= 'z') || ('A' <= text[i] && text[i] <= 'Z')) {
        i + 1 - at
    } else {
        0
    }
}

/// The text without its escape sequences.
pub fn strip_ansi(text: &str) -> (plain: String)
    ensures
        plain@ == stripped(text@),
{
    let t = chars_of(text);
    let mut plain = String::new();
    let mut at: usize = 0;
    assert(plain@ + stripped(text@) =~= stripped(text@));
    while at < t.len()
        invariant
            at <= t@.len(),
            t@ == text@,
            plain@ + stripped_from(text@, at as int) == stripped(text@),
        decreases t@.len() - at,
    {
        let skip: usize = escape_at(t.as_slice(), at);
        if skip > 0 {
            at = at + skip;
        } else {
            let ghost before = plain@;
            plain.push(t[at]);
            assert(plain@ + stripped_from(text@, at + 1) =~= before + (seq![text@[at as int]]
                + stripped_from(text@, at + 1)));
            at = at + 1;
        }
    }
    assert(plain@ + Seq::<char>::empty() =~= plain@);
    plain
}

// ---------------------------------------------------------------------------
// Styles
// ---------------------------------------------------------------------------

/// The style after the graphics codes from `at` on.
pub open spec fn style_after(style: AnsiStyle, codes: Seq<Seq<char>>, at: int) -> AnsiStyle
    decreases codes.len() - at,
{
    if at < 0 || at >= codes.len() {
        style
    } else {
        let code = if codes[at].len() == 0 {
            Some(0nat)
        } else {
            parse_unsigned(codes[at], 255)
        };
        let colour = if at + 2 < codes.len() {
            parse_unsigned(codes[at + 2], 255)
        } else {
            None
        };
        if code == Some(38nat) && at + 2 < codes.len() && parse_unsigned(codes[at + 1], 255)
            == Some(5nat) {
            style_after(
                match colour {
                    Some(n) => AnsiStyle { fg: Some(n as u8), ..style },
                    None => style,
                },
                codes,
                at + 3,
            )
        } else {
            style_after(
                match code {
                    Some(n) => styled_by(style, n),
                    None => style,
                },
                codes,
                at + 1,
            )
        }
    }
}

/// The style after one graphics code.
pub open spec fn styled_by(style: AnsiStyle, code: nat) -> AnsiStyle {
    if code == 0 {
        plain_style()
    } else if code == 1 {
        AnsiStyle { bold: true, ..style }
    } else if code == 3 {
        AnsiStyle { italic: true, ..style }
    } else if code == 4 {
        AnsiStyle { underline: true, ..style }
    } else if code == 22 {
        AnsiStyle { bold: false, ..style }
    } else if code == 23 {
        AnsiStyle { italic: false, ..style }
    } else if code == 24 {
        AnsiStyle { underline: false, ..style }
    } else if 30 <= code <= 37 {
        AnsiStyle { fg: Some((code - 30) as u8), ..style }
    } else if code == 39 {
        AnsiStyle { fg: None, ..style }
    } else if 90 <= code <= 97 {
        AnsiStyle { fg: Some((code - 82) as u8), ..style }
    } else {
        style
    }
}

fn apply_code(style: AnsiStyle, code: u64) -> (next: AnsiStyle)
    ensures
        next == styled_by(style, code as nat),
{
    if code == 0 {
        AnsiStyle::default()
    } else if code == 1 {
        AnsiStyle { bold: true, ..style }
    } else if code == 3 {
        AnsiStyle { italic: true, ..style }
    } else if code == 4 {
        AnsiStyle { underline: true, ..style }
    } else if code == 22 {
        AnsiStyle { bold: false, ..style }
    } else if code == 23 {
        AnsiStyle { italic: false, ..style }
    } else if code == 24 {
        AnsiStyle { underline: false, ..style }
    } else if 30 <= code && code <= 37 {
        AnsiStyle { fg: Some((code - 30) as u8), ..style }
    } else if code == 39 {
        AnsiStyle { fg: None, ..style }
    } else if 90 <= code && code <= 97 {
        AnsiStyle { fg: Some((code - 82) as u8), ..style }
    } else {
        style
    }
}

fn apply_codes(start: AnsiStyle, codes: &Vec<String>) -> (style: AnsiStyle)
    ensures
        style == style_after(start, texts(codes@), 0),
{
    let mut style = start;
    let mut at: usize = 0;
    while at < codes.len()
        invariant
            at <= codes@.len(),
            style_after(style, texts(codes@), at as int) == style_after(start, texts(codes@), 0),
        decreases codes@.len() - at,
    {
        assert(texts(codes@)[at as int] == codes@[at as int]@);
        let code: Option<u64> = if codes[at].as_str().is_empty() {
            Some(0)
        } else {
            parse_u64(codes[at].as_str(), 255)
        };
        if codes.len() - at > 2 && code == Some(38) {
            assert(texts(codes@)[at + 1] == codes@[at + 1]@);
            assert(texts(codes@)[at + 2] == codes@[at + 2]@);
            let mode: Option<u64> = parse_u64(codes[at + 1].as_str(), 255);
            if mode == Some(5) {
                match parse_u64(codes[at + 2].as_str(), 255) {
                    Some(n) => {
                        style = AnsiStyle { fg: Some(n as u8), ..style };
                    },
                    None => {},
                }
                at = at + 3;
                continue ;
            }
        }
        match code {
            Some(n) => {
                style = apply_code(style, n);
            },
            None => {},
        }
        at = at + 1;
    }
    style
}

/// The style after the escape sequence of `len` characters at `at`.
pub open spec fn style_after_escape(style: AnsiStyle, text: Seq<char>, at: int) -> AnsiStyle {
    let end = at + escape_len(text, at) - 1;
    if text[end] == 'm' {
        style_after(style, split_on(text.subrange(at + 2, end), ';'), 0)
    } else {
        style
    }
}

// ---------------------------------------------------------------------------
// Sections
// ---------------------------------------------------------------------------

/// A run of characters as a section, where it is not empty.
pub open spec fn run(text: Seq<char>, style: AnsiStyle) -> Seq<SectionView> {
    if text.len() == 0 {
        Seq::empty()
    } else {
        seq![SectionView { text, style, url: None }]
    }
}

/// The place of the next web address at or after `from`.
pub open spec fn next_link(text: Seq<char>, from: int) -> Option<int> {
    match (find_from(text, "https://"@, from), find_from(text, "http://"@, from)) {
        (Some(a), Some(b)) => Some(if a < b {
            a
        } else {
            b
        }),
        (Some(a), None) => Some(a),
        (None, Some(b)) => Some(b),
        (None, None) => None,
    }
}

/// How many characters from `from` on are not white space.
pub open spec fn word_len(text: Seq<char>, from: int) -> nat
    decreases text.len() - from,
{
    if 0 <= from < text.len() && !is_space(text[from]) {
        1 + word_len(text, from + 1)
    } else {
        0
    }
}

/// A run of characters from `from` on, cut at its web addresses.
pub open spec fn linked(text: Seq<char>, style: AnsiStyle, from: int) -> Seq<SectionView>
    decreases text.len() - from,
{
    match next_link(text, from) {
        Some(at) => {
            let end = at + word_len(text, at);
            if 0 <= from <= at < end <= text.len() {
                run(text.subrange(from, at), style) + seq![
                    SectionView {
                        text: text.subrange(at, end),
                        style,
                        url: Some(text.subrange(at, end)),
                    },
                ] + linked(text, style, end)
            } else {
                run(text.skip(from), style)
            }
        },
        None => run(text.skip(from), style),
    }
}

/// The sections of a text from `at` on, after the run `current`.
pub open spec fn sections_from(
    text: Seq<char>,
    at: int,
    style: AnsiStyle,
    current: Seq<char>,
) -> Seq<SectionView>
    decreases text.len() - at,
{
    if at < 0 || at >= text.len() {
        linked(current, style, 0)
    } else if escape_len(text, at) > 0 {
        linked(current, style, 0) + sections_from(
            text,
            at + escape_len(text, at),
            style_after_escape(style, text, at),
            Seq::empty(),
        )
    } else {
        sections_from(text, at + 1, style, current.push(text[at]))
    }
}

/// The sections of a text.
pub open spec fn sections(text: Seq<char>) -> Seq<SectionView> {
    sections_from(text, 0, plain_style(), Seq::empty())
}

/// The texts of a list of sections, joined.
pub open spec fn joined(list: Seq<SectionView>) -> Seq<char>
    decreases list.len(),
{
    if list.len() == 0 {
        Seq::empty()
    } else {
        joined(list.drop_last()) + list.last().text
    }
}

fn push_run(out: &mut Vec<ANSISection>, text: &[char], from: usize, to: usize, style: AnsiStyle)
    requires
        from <= to <= text@.len(),
    ensures
        views(final(out)@) == views(old(out)@) + run(
            text@.subrange(from as int, to as int),
            style,
        ),
{
    let ghost before = out@;
    if from < to {
        out.push(ANSISection { text: text_between(text, from, to), style, url: None });
        assert(views(out@) =~= views(before) + run(text@.subrange(from as int, to as int), style));
    } else {
        assert(views(out@) =~= views(before) + run(text@.subrange(from as int, to as int), style));
    }
}

proof fn lemma_word_len(text: Seq<char>, from: int)
    requires
        0 <= from <= text.len(),
    ensures
        from + word_len(text, from) <= text.len(),
    decreases text.len() - from,
{
    if from < text.len() && !is_space(text[from]) {
        lemma_word_len(text, from + 1);
    }
}

fn push_linked(out: &mut Vec<ANSISection>, text: &[char], style: AnsiStyle)
    ensures
        views(final(out)@) == views(old(out)@) + linked(text@, style, 0),
{
    let https = chars_of("https://");
    let http = chars_of("http://");
    let mut from: usize = 0;
    loop
        invariant
            from <= text@.len(),
            https@ == "https://"@,
            http@ == "http://"@,
            views(out@) + linked(text@, style, from as int) == views(old(out)@) + linked(
                text@,
                style,
                0,
            ),
        decreases text@.len() - from,
    {
        let a = find(text, https.as_slice(), from);
        let b = find(text, http.as_slice(), from);
        let next: Option<usize> = match (a, b) {
            (Some(x), Some(y)) => Some(
                if x < y {
                    x
                } else {
                    y
                },
            ),
            (Some(x), None) => Some(x),
            (None, Some(y)) => Some(y),
            (None, None) => None,
        };
        assert(opt_index(next) == next_link(text@, from as int));
        let ghost before = views(out@);
        match next {
            Some(at) => {
                let mut end: usize = at;
                while end < text.len() && !is_whitespace(text[end])
                    invariant
                        at <= end <= text@.len(),
                        word_len(text@, at as int) == (end - at) + word_len(text@, end as int),
                    decreases text@.len() - end,
                {
                    end = end + 1;
                }
                if end == at {
                    push_run(out, text, from, text.len(), style);
                    assert(text@.skip(from as int) =~= text@.subrange(
                        from as int,
                        text@.len() as int,
                    ));
                    return ;
                }
                push_run(out, text, from, at, style);
                let word = text_between(text, at, end);
                let ghost middle = out@;
                out.push(ANSISection { text: word.clone(), style, url: Some(word) });
                proof {
                    let link = SectionView {
                        text: text@.subrange(at as int, end as int),
                        style,
                        url: Some(text@.subrange(at as int, end as int)),
                    };
                    assert(views(out@) =~= views(middle).push(link));
                    assert(views(out@) + linked(text@, style, end as int) =~= before + (run(
                        text@.subrange(from as int, at as int),
                        style,
                    ) + seq![link] + linked(text@, style, end as int)));
                }
                from = end;
            },
            None => {
                push_run(out, text, from, text.len(), style);
                assert(text@.skip(from as int) =~= text@.subrange(from as int, text@.len() as int));
                return ;
            },
        }
    }
}

/// Cuts texts into styled sections.
pub struct ANSIParser {}

impl ANSIParser {
    /// The sections of a text: its runs between escape sequences, each in the
    /// style that stands there, cut again at web addresses.
    pub fn parse(text: &str) -> (parsed: Vec<ANSISection>)
        ensures
            views(parsed@) == sections(text@),
    {
        let t = chars_of(text);
        let mut out: Vec<ANSISection> = Vec::new();
        let mut style = AnsiStyle::default();
        let mut start: usize = 0;
        let mut at: usize = 0;
        assert(views(out@) + sections(text@) =~= sections(text@));
        assert(t@.subrange(0, 0) =~= Seq::<char>::empty());
        while at < t.len()
            invariant
                start <= at <= t@.len(),
                t@ == text@,
                views(out@) + sections_from(
                    text@,
                    at as int,
                    style,
                    t@.subrange(start as int, at as int),
                ) == sections(text@),
            decreases t@.len() - at,
        {
            let skip: usize = escape_at(t.as_slice(), at);
            if skip > 0 {
                let ghost before = views(out@);
                push_linked(
                    &mut out,
                    vstd::slice::slice_subrange(t.as_slice(), start, at),
                    style,
                );
                let ghost old_style = style;
                if t[at + skip - 1] == 'm' {
                    let params = text_between(t.as_slice(), at + 2, at + skip - 1);
                    let codes = str_split(params.as_str(), ';');
                    style = apply_codes(style, &codes);
                }
                proof {
                    assert(style == style_after_escape(old_style, text@, at as int));
                    let run = linked(t@.subrange(start as int, at as int), old_style, 0);
                    let rest = sections_from(text@, at + skip, style, Seq::empty());
                    assert((before + run) + rest =~= before + (run + rest));
                    assert(t@.subrange(at + skip, at + skip) =~= Seq::<char>::empty());
                }
                at = at + skip;
                start = at;
            } else {
                assert(t@.subrange(start as int, at + 1) =~= t@.subrange(
                    start as int,
                    at as int,
                ).push(text@[at as int]));
                at = at + 1;
            }
        }
        push_linked(&mut out, vstd::slice::slice_subrange(t.as_slice(), start, at), style);
        out
    }
}

proof fn lemma_joined_add(a: Seq<SectionView>, b: Seq<SectionView>)
    ensures
        joined(a + b) == joined(a) + joined(b),
    decreases b.len(),
{
    if b.len() == 0 {
        assert(a + b =~= a);
        assert(joined(a) + Seq::<char>::empty() =~= joined(a));
    } else {
        lemma_joined_add(a, b.drop_last());
        assert((a + b).drop_last() =~= a + b.drop_last());
        assert(joined(a) + (joined(b.drop_last()) + b.last().text) =~= joined(a) + joined(
            b.drop_last(),
        ) + b.last().text);
    }
}

proof fn lemma_joined_run(text: Seq<char>, style: AnsiStyle)
    ensures
        joined(run(text, style)) == text,
{
    if text.len() == 0 {
        assert(text =~= Seq::<char>::empty());
    } else {
        let one = run(text, style);
        assert(one.drop_last() =~= Seq::<SectionView>::empty());
        assert(joined(one.drop_last()) =~= Seq::<char>::empty());
        assert(joined(one) =~= text);
    }
}

proof fn lemma_joined_linked(text: Seq<char>, style: AnsiStyle, from: int)
    requires
        0 <= from <= text.len(),
    ensures
        joined(linked(text, style, from)) == text.skip(from),
    decreases text.len() - from,
{
    lemma_joined_run(text.skip(from), style);
    match next_link(text, from) {
        Some(at) => {
            let end = at + word_len(text, at);
            if 0 <= from <= at < end <= text.len() {
                let link = SectionView {
                    text: text.subrange(at, end),
                    style,
                    url: Some(text.subrange(at, end)),
                };
                let one = seq![link];
                lemma_joined_linked(text, style, end);
                lemma_joined_run(text.subrange(from, at), style);
                lemma_joined_add(run(text.subrange(from, at), style), one);
                lemma_joined_add(
                    run(text.subrange(from, at), style) + one,
                    linked(text, style, end),
                );
                assert(one.drop_last() =~= Seq::<SectionView>::empty());
                assert(joined(one.drop_last()) =~= Seq::<char>::empty());
                assert(joined(one) =~= link.text);
                assert(text.subrange(from, at) + text.subrange(at, end) + text.skip(end)
                    =~= text.skip(from));
            }
        },
        None => {},
    }
}

proof fn lemma_joined_sections(text: Seq<char>, at: int, style: AnsiStyle, current: Seq<char>)
    requires
        0 <= at,
    ensures
        joined(sections_from(text, at, style, current)) == current + stripped_from(text, at),
    decreases text.len() - at,
{
    lemma_joined_linked(current, style, 0);
    assert(current.skip(0) =~= current);
    if at >= text.len() {
        assert(current + Seq::<char>::empty() =~= current);
    } else if escape_len(text, at) > 0 {
        let next = at + escape_len(text, at);
        let after = style_after_escape(style, text, at);
        lemma_joined_sections(text, next, after, Seq::empty());
        lemma_joined_add(
            linked(current, style, 0),
            sections_from(text, next, after, Seq::empty()),
        );
        assert(Seq::<char>::empty() + stripped_from(text, next) =~= stripped_from(text, next));
    } else {
        lemma_joined_sections(text, at + 1, style, current.push(text[at]));
        assert(current.push(text[at]) + stripped_from(text, at + 1) =~= current + (seq![text[at]]
            + stripped_from(text, at + 1)));
    }
}

/// The sections of a text hold exactly the text without its escape sequences.
pub proof fn sections_keep_the_plain_text(text: Seq<char>)
    ensures
        joined(sections(text)) == stripped(text),
{
    lemma_joined_sections(text, 0, plain_style(), Seq::empty());
    assert(Seq::<char>::empty() + stripped(text) =~= stripped(text));
}

pub fn join_sections(list: &Vec<ANSISection>) -> (text: String)
    ensures
        text@ == joined(views(list@)),
{
    let mut chars: Vec<char> = Vec::new();
    let mut i: usize = 0;
    assert(views(list@).take(0) =~= Seq::<SectionView>::empty());
    while i < list.len()
        invariant
            i <= list@.len(),
            chars@ == joined(views(list@).take(i as int)),
        decreases list@.len() - i,
    {
        let mut more = chars_of(list[i].text.as_str());
        chars.append(&mut more);
        assert(views(list@).take(i + 1).drop_last() =~= views(list@).take(i as int));
        i = i + 1;
    }
    assert(views(list@).take(i as int) =~= views(list@));
    text_of(chars.as_slice())
}

} // verus!
