//! How texts are shown: styles and links.
use vstd::prelude::*;
use crate::ansi::{
    linked, next_link, plain_style, run, style_after, styled_by, word_len, AnsiStyle, SectionView,
};
use crate::laws::texts::written_numbers_are_read_back;
use crate::text::{decimal, is_space, lemma_find_from, occurs_at, parse_unsigned, starts_with};

verus! {

proof fn lemma_one_code(style: AnsiStyle, n: nat)
    requires
        n <= 255,
    ensures
        style_after(style, seq![decimal(n)], 0) == styled_by(style, n),
{
    written_numbers_are_read_back(n);
    let codes = seq![decimal(n)];
    assert(codes[0] == decimal(n));
    assert(parse_unsigned(decimal(n), 255) == Some(n));
    assert(style_after(styled_by(style, n), codes, 1) == styled_by(style, n));
}

/// Each switch turns one thing on or off and leaves the rest alone; none of
/// them touches the colour.
pub proof fn switches_turn_one_thing(style: AnsiStyle)
    ensures
        ({
            let bold = style_after(style, seq![decimal(1)], 0);
            let thin = style_after(style, seq![decimal(22)], 0);
            let italic = style_after(style, seq![decimal(3)], 0);
            let upright = style_after(style, seq![decimal(23)], 0);
            let lined = style_after(style, seq![decimal(4)], 0);
            let bare = style_after(style, seq![decimal(24)], 0);
            &&& bold.bold && !thin.bold && bold.italic == style.italic && thin.italic == style.italic
                && bold.underline == style.underline && thin.underline == style.underline
            &&& italic.italic && !upright.italic && italic.bold == style.bold && upright.bold
                == style.bold && italic.underline == style.underline && upright.underline
                == style.underline
            &&& lined.underline && !bare.underline && lined.bold == style.bold && bare.bold
                == style.bold && lined.italic == style.italic && bare.italic == style.italic
            &&& bold.fg == style.fg && thin.fg == style.fg && italic.fg == style.fg && upright.fg
                == style.fg && lined.fg == style.fg && bare.fg == style.fg
        }),
{
    lemma_one_code(style, 1);
    lemma_one_code(style, 22);
    lemma_one_code(style, 3);
    lemma_one_code(style, 23);
    lemma_one_code(style, 4);
    lemma_one_code(style, 24);
}

/// A reset takes everything back, whatever stood before.
pub proof fn resets_take_everything_back(style: AnsiStyle)
    ensures
        ({
            let reset = style_after(style, seq![decimal(0)], 0);
            let short = style_after(style, seq![Seq::<char>::empty()], 0);
            &&& reset.fg is None && !reset.bold && !reset.italic && !reset.underline
            &&& short == reset
        }),
{
    lemma_one_code(style, 0);
    let codes = seq![Seq::<char>::empty()];
    assert(codes[0].len() == 0);
    assert(style_after(plain_style(), codes, 1) == plain_style());
}

/// The eight colours, their bright ones and the colours of the palette are
/// chosen by number; the rest of the style stays.
pub proof fn colours_are_chosen_by_number(style: AnsiStyle, n: nat)
    ensures
        n < 8 ==> style_after(style, seq![decimal(30 + n)], 0).fg == Some(n as u8),
        n < 8 ==> style_after(style, seq![decimal(90 + n)], 0).fg == Some((8 + n) as u8),
        n < 8 ==> style_after(style, seq![decimal(30 + n)], 0).bold == style.bold,
        n <= 255 ==> style_after(style, seq![decimal(38), decimal(5), decimal(n)], 0) == (AnsiStyle {
            fg: Some(n as u8),
            ..style
        }),
        style_after(style, seq![decimal(39)], 0).fg is None,
        style_after(style, seq![decimal(39)], 0).bold == style.bold,
{
    if n < 8 {
        lemma_one_code(style, 30 + n);
        lemma_one_code(style, 90 + n);
    }
    lemma_one_code(style, 39);
    if n <= 255 {
        written_numbers_are_read_back(n);
        written_numbers_are_read_back(38);
        written_numbers_are_read_back(5);
        let codes = seq![decimal(38), decimal(5), decimal(n)];
        assert(codes[0] == decimal(38) && codes[1] == decimal(5) && codes[2] == decimal(n));
        assert(parse_unsigned(decimal(38), 255) == Some(38nat));
        assert(parse_unsigned(decimal(5), 255) == Some(5nat));
        assert(parse_unsigned(decimal(n), 255) == Some(n));
        let chosen = AnsiStyle { fg: Some(n as u8), ..style };
        assert(style_after(chosen, codes, 3) == chosen);
    }
}

proof fn lemma_word(text: Seq<char>, from: int)
    requires
        0 <= from <= text.len(),
    ensures
        from + word_len(text, from) <= text.len(),
        forall|j: int| from <= j < from + word_len(text, from) ==> !is_space(#[trigger] text[j]),
        from + word_len(text, from) < text.len() ==> is_space(
            text[from + word_len(text, from) as int],
        ),
    decreases text.len() - from,
{
    if from < text.len() && !is_space(text[from]) {
        lemma_word(text, from + 1);
    }
}

/// Whether a text is a web address without a space.
pub open spec fn is_address(text: Seq<char>) -> bool {
    (starts_with(text, "https://"@) || starts_with(text, "http://"@)) && forall|i: int|
        0 <= i < text.len() ==> !is_space(#[trigger] text[i])
}

proof fn lemma_next_link(text: Seq<char>, from: int)
    requires
        0 <= from <= text.len(),
    ensures
        match next_link(text, from) {
            Some(at) => {
                let end = at + word_len(text, at);
                &&& from <= at < end <= text.len()
                &&& is_address(text.subrange(at, end))
            },
            None => forall|j: int|
                from <= j ==> !occurs_at(text, "https://"@, j) && !occurs_at(text, "http://"@, j),
        },
{
    lemma_find_from(text, "https://"@, from);
    lemma_find_from(text, "http://"@, from);
    if next_link(text, from) is Some {
        let at = next_link(text, from)->0;
        if occurs_at(text, "https://"@, at) {
            lemma_marked_word(text, "https://"@, at);
        } else {
            lemma_marked_word(text, "http://"@, at);
        }
    }
}

proof fn lemma_marks()
    ensures
        "https://"@ =~= seq!['h', 't', 't', 'p', 's', ':', '/', '/'],
        "http://"@ =~= seq!['h', 't', 't', 'p', ':', '/', '/'],
{
    reveal_strlit("https://");
    reveal_strlit("http://");
}

proof fn lemma_marked_word(text: Seq<char>, mark: Seq<char>, at: int)
    requires
        mark == "https://"@ || mark == "http://"@,
        0 <= at <= text.len(),
        occurs_at(text, mark, at),
    ensures
        at < at + word_len(text, at) <= text.len(),
        is_address(text.subrange(at, at + word_len(text, at))),
{
    lemma_marks();
    lemma_word(text, at);
    let n = word_len(text, at) as int;
    let m = mark.len() as int;
    assert(text.subrange(at, at + m) == mark);
    if n < m {
        assert(text.subrange(at, at + m)[n] == mark[n]);
        assert(!is_space(mark[n]));
    }
    let word = text.subrange(at, at + n);
    assert(word.subrange(0, m) =~= mark);
    assert(starts_with(word, mark));
    assert forall|i: int| 0 <= i < word.len() implies !is_space(#[trigger] word[i]) by {
        assert(word[i] == text[at + i]);
    }
}

/// A link leads to the address that it shows, and keeps the style of its text.
pub proof fn links_lead_to_what_they_show(text: Seq<char>, style: AnsiStyle, from: int, i: int)
    requires
        0 <= from <= text.len(),
        0 <= i < linked(text, style, from).len(),
    ensures
        ({
            let section = linked(text, style, from)[i];
            &&& section.style == style
            &&& section.text.len() > 0
            &&& section.url is Some ==> section.url == Some(section.text) && is_address(
                section.text,
            )
        }),
    decreases text.len() - from,
{
    lemma_next_link(text, from);
    match next_link(text, from) {
        Some(at) => {
            let end = at + word_len(text, at);
            let head = run(text.subrange(from, at), style);
            let rest = linked(text, style, end);
            if i > head.len() {
                links_lead_to_what_they_show(text, style, end, i - head.len() - 1);
                assert(linked(text, style, from)[i] == rest[i - head.len() - 1]);
            } else if i < head.len() {
                assert(linked(text, style, from)[i] == head[i]);
            }
        },
        None => {},
    }
}

/// An address becomes a link; a text without one has none.
pub proof fn addresses_become_links(text: Seq<char>, style: AnsiStyle)
    requires
        text.len() > 0,
    ensures
        is_address(text) ==> linked(text, style, 0) == seq![
            SectionView { text, style, url: Some(text) },
        ],
        (forall|j: int| !occurs_at(text, "https://"@, j) && !occurs_at(text, "http://"@, j))
            ==> linked(text, style, 0) == seq![SectionView { text, style, url: None }],
{
    lemma_next_link(text, 0);
    assert(text.skip(0) =~= text);
    if next_link(text, 0) is Some {
        lemma_find_from(text, "https://"@, 0);
        lemma_find_from(text, "http://"@, 0);
    }
    if is_address(text) {
        lemma_marks();
        lemma_find_from(text, "https://"@, 0);
        lemma_find_from(text, "http://"@, 0);
        assert(occurs_at(text, "https://"@, 0) || occurs_at(text, "http://"@, 0));
        let at = next_link(text, 0)->0;
        assert(at == 0);
        lemma_word(text, 0);
        let end = word_len(text, 0) as int;
        assert(end == text.len());
        assert(text.subrange(0, end) =~= text);
        assert(text.subrange(0, 0).len() == 0);
        lemma_next_link(text, end);
        assert(next_link(text, end) is None);
        assert(text.skip(end).len() == 0);
        assert(linked(text, style, end) =~= Seq::empty());
        assert(linked(text, style, 0) =~= seq![SectionView { text, style, url: Some(text) }]);
    }
}

} // verus!
