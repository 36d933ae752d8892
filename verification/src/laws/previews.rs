//! Previews of pages.
use vstd::prelude::*;
use vstd::utf8::encode_utf8;
use crate::preview::{
    attr_in, byte_place, byte_slice, content_around, description_in, entities_decoded, og_in,
    page_preview, preview_in, quoted_attr, title_in, ExtractView,
};
use crate::text::{
    byte_len, contains, find_from, is_space, lemma_encode_concat, lemma_find_from,
    lemma_head_boundary, lemma_rfind_from, lowercase, occurs_at, replaced, replaced_from,
    rfind_from,
};

verus! {

// ---------------------------------------------------------------------------
// Entities
// ---------------------------------------------------------------------------

proof fn lemma_replaced_none(text: Seq<char>, part: Seq<char>, by: Seq<char>)
    requires
        part.len() > 0,
        part[0] == '&',
        forall|i: int| 0 <= i < text.len() ==> #[trigger] text[i] != '&',
    ensures
        replaced(text, part, by) == text,
{
    lemma_find_from(text, part, 0);
    match find_from(text, part, 0) {
        Some(at) => {
            assert(text.subrange(at, at + part.len())[0] == text[at]);
        },
        None => {},
    }
    assert(text.skip(0) =~= text);
}

/// A text without entities is what it is.
pub proof fn texts_without_entities_stay(text: Seq<char>)
    requires
        forall|i: int| 0 <= i < text.len() ==> #[trigger] text[i] != '&',
    ensures
        entities_decoded(text) == text,
{
    reveal_strlit("&amp;");
    reveal_strlit("&lt;");
    reveal_strlit("&gt;");
    reveal_strlit("&quot;");
    reveal_strlit("&#39;");
    reveal_strlit("&apos;");
    reveal_strlit("&nbsp;");
    lemma_replaced_none(text, "&amp;"@, "&"@);
    lemma_replaced_none(text, "&lt;"@, "<"@);
    lemma_replaced_none(text, "&gt;"@, ">"@);
    lemma_replaced_none(text, "&quot;"@, "\""@);
    lemma_replaced_none(text, "&#39;"@, "'"@);
    lemma_replaced_none(text, "&apos;"@, "'"@);
    lemma_replaced_none(text, "&nbsp;"@, " "@);
}

proof fn lemma_replaced_first(head: Seq<char>, part: Seq<char>, by: Seq<char>, tail: Seq<char>)
    requires
        part.len() > 0,
        part[0] == '&',
        forall|i: int| 0 <= i < head.len() ==> #[trigger] head[i] != '&',
        forall|i: int| 0 <= i < tail.len() ==> #[trigger] tail[i] != '&',
    ensures
        replaced(head + part + tail, part, by) == head + by + tail,
{
    let text = head + part + tail;
    let n = head.len() as int;
    let m = n + part.len();
    assert(text.subrange(n, m) =~= part);
    assert(occurs_at(text, part, n));
    lemma_find_from(text, part, 0);
    let at = find_from(text, part, 0)->0;
    if at < n {
        assert(text.subrange(at, at + part.len())[0] == text[at]);
        assert(text[at] == head[at]);
    }
    assert(at == n);
    lemma_find_from(text, part, m);
    match find_from(text, part, m) {
        Some(k) => {
            assert(text.subrange(k, k + part.len())[0] == text[k]);
            assert(text[k] == tail[k - m]);
        },
        None => {},
    }
    assert(text.subrange(0, n) =~= head);
    assert(text.skip(m) =~= tail);
    assert(replaced_from(text, part, by, m) == tail);
}

/// Every entity becomes the character that it names.
pub proof fn entities_become_characters(head: Seq<char>, tail: Seq<char>)
    requires
        forall|i: int| 0 <= i < head.len() ==> #[trigger] head[i] != '&',
        forall|i: int| 0 <= i < tail.len() ==> #[trigger] tail[i] != '&',
    ensures
        replaced(head + "&lt;"@ + tail, "&lt;"@, "<"@) == head + "<"@ + tail,
        entities_decoded(head + "&lt;"@ + tail) == head + "<"@ + tail,
        entities_decoded(head + "&gt;"@ + tail) == head + ">"@ + tail,
        entities_decoded(head + "&quot;"@ + tail) == head + "\""@ + tail,
        entities_decoded(head + "&#39;"@ + tail) == head + "'"@ + tail,
        entities_decoded(head + "&nbsp;"@ + tail) == head + " "@ + tail,
{
    lemma_one_entity(head, tail);
}

/// Another entity does not occur where one stands alone.
proof fn lemma_replaced_other(
    head: Seq<char>,
    there: Seq<char>,
    tail: Seq<char>,
    part: Seq<char>,
    by: Seq<char>,
)
    requires
        part.len() > 1,
        part[0] == '&',
        there.len() > 1,
        there[0] == '&',
        there[1] != part[1],
        forall|i: int| 1 <= i < there.len() ==> #[trigger] there[i] != '&',
        forall|i: int| 0 <= i < head.len() ==> #[trigger] head[i] != '&',
        forall|i: int| 0 <= i < tail.len() ==> #[trigger] tail[i] != '&',
    ensures
        replaced(head + there + tail, part, by) == head + there + tail,
{
    let text = head + there + tail;
    lemma_find_from(text, part, 0);
    match find_from(text, part, 0) {
        Some(at) => {
            assert(text.subrange(at, at + part.len())[0] == text[at]);
            assert(text.subrange(at, at + part.len())[1] == text[at + 1]);
            let n = head.len() as int;
            if at < n {
                assert(text[at] == head[at]);
            } else if at == n {
                assert(text[at + 1] == there[1]);
            } else if at < n + there.len() {
                assert(text[at] == there[at - n]);
            } else {
                assert(text[at] == tail[at - n - there.len()]);
            }
        },
        None => {},
    }
    assert(text.skip(0) =~= text);
}

proof fn lemma_clean(head: Seq<char>, by: Seq<char>, tail: Seq<char>)
    requires
        by.len() == 1,
        by[0] != '&',
        forall|i: int| 0 <= i < head.len() ==> #[trigger] head[i] != '&',
        forall|i: int| 0 <= i < tail.len() ==> #[trigger] tail[i] != '&',
    ensures
        forall|i: int| 0 <= i < (head + by + tail).len() ==> #[trigger] (head + by + tail)[i] != '&',
{
    let text = head + by + tail;
    assert forall|i: int| 0 <= i < text.len() implies #[trigger] text[i] != '&' by {
        if i < head.len() {
            assert(text[i] == head[i]);
        } else if i > head.len() {
            assert(text[i] == tail[i - head.len() - 1]);
        }
    }
}

proof fn lemma_one_entity(head: Seq<char>, tail: Seq<char>)
    requires
        forall|i: int| 0 <= i < head.len() ==> #[trigger] head[i] != '&',
        forall|i: int| 0 <= i < tail.len() ==> #[trigger] tail[i] != '&',
    ensures
        replaced(head + "&lt;"@ + tail, "&lt;"@, "<"@) == head + "<"@ + tail,
        entities_decoded(head + "&lt;"@ + tail) == head + "<"@ + tail,
        entities_decoded(head + "&gt;"@ + tail) == head + ">"@ + tail,
        entities_decoded(head + "&quot;"@ + tail) == head + "\""@ + tail,
        entities_decoded(head + "&#39;"@ + tail) == head + "'"@ + tail,
        entities_decoded(head + "&nbsp;"@ + tail) == head + " "@ + tail,
{
    reveal_strlit("&amp;");
    reveal_strlit("&lt;");
    reveal_strlit("&gt;");
    reveal_strlit("&quot;");
    reveal_strlit("&#39;");
    reveal_strlit("&apos;");
    reveal_strlit("&nbsp;");
    reveal_strlit("<");
    reveal_strlit(">");
    reveal_strlit("\"");
    reveal_strlit("'");
    reveal_strlit(" ");
    // less
    lemma_replaced_other(head, "&lt;"@, tail, "&amp;"@, "&"@);
    lemma_replaced_first(head, "&lt;"@, "<"@, tail);
    lemma_clean(head, "<"@, tail);
    lemma_rest(head + "<"@ + tail);
    // greater
    lemma_replaced_other(head, "&gt;"@, tail, "&amp;"@, "&"@);
    lemma_replaced_other(head, "&gt;"@, tail, "&lt;"@, "<"@);
    lemma_replaced_first(head, "&gt;"@, ">"@, tail);
    lemma_clean(head, ">"@, tail);
    lemma_rest(head + ">"@ + tail);
    // quotation mark
    lemma_replaced_other(head, "&quot;"@, tail, "&amp;"@, "&"@);
    lemma_replaced_other(head, "&quot;"@, tail, "&lt;"@, "<"@);
    lemma_replaced_other(head, "&quot;"@, tail, "&gt;"@, ">"@);
    lemma_replaced_first(head, "&quot;"@, "\""@, tail);
    lemma_clean(head, "\""@, tail);
    lemma_rest(head + "\""@ + tail);
    // apostrophe
    lemma_replaced_other(head, "&#39;"@, tail, "&amp;"@, "&"@);
    lemma_replaced_other(head, "&#39;"@, tail, "&lt;"@, "<"@);
    lemma_replaced_other(head, "&#39;"@, tail, "&gt;"@, ">"@);
    lemma_replaced_other(head, "&#39;"@, tail, "&quot;"@, "\""@);
    lemma_replaced_first(head, "&#39;"@, "'"@, tail);
    lemma_clean(head, "'"@, tail);
    lemma_rest(head + "'"@ + tail);
    // space
    lemma_replaced_other(head, "&nbsp;"@, tail, "&amp;"@, "&"@);
    lemma_replaced_other(head, "&nbsp;"@, tail, "&lt;"@, "<"@);
    lemma_replaced_other(head, "&nbsp;"@, tail, "&gt;"@, ">"@);
    lemma_replaced_other(head, "&nbsp;"@, tail, "&quot;"@, "\""@);
    lemma_replaced_other(head, "&nbsp;"@, tail, "&#39;"@, "'"@);
    lemma_replaced_other(head, "&nbsp;"@, tail, "&apos;"@, "'"@);
    lemma_replaced_first(head, "&nbsp;"@, " "@, tail);
}

proof fn lemma_rest(text: Seq<char>)
    requires
        forall|i: int| 0 <= i < text.len() ==> #[trigger] text[i] != '&',
    ensures
        replaced(text, "&gt;"@, ">"@) == text,
        replaced(text, "&quot;"@, "\""@) == text,
        replaced(text, "&#39;"@, "'"@) == text,
        replaced(text, "&apos;"@, "'"@) == text,
        replaced(text, "&nbsp;"@, " "@) == text,
{
    reveal_strlit("&gt;");
    reveal_strlit("&quot;");
    reveal_strlit("&#39;");
    reveal_strlit("&apos;");
    reveal_strlit("&nbsp;");
    lemma_replaced_none(text, "&gt;"@, ">"@);
    lemma_replaced_none(text, "&quot;"@, "\""@);
    lemma_replaced_none(text, "&#39;"@, "'"@);
    lemma_replaced_none(text, "&apos;"@, "'"@);
    lemma_replaced_none(text, "&nbsp;"@, " "@);
}

// ---------------------------------------------------------------------------
// Meta tags
// ---------------------------------------------------------------------------

/// Whether a value can stand in quotes in a tag as it is.
pub open spec fn is_plain_value(value: Seq<char>) -> bool {
    &&& value.len() > 0
    &&& !is_space(value[0]) && !is_space(value.last())
    &&& forall|i: int|
        0 <= i < value.len() ==> #[trigger] value[i] != '&' && value[i] != '"' && value[i] != '<'
            && value[i] != '>'
}

/// A meta tag that names a property and its content.
pub open spec fn meta_tag(property: Seq<char>, content: Seq<char>) -> Seq<char> {
    "<meta "@ + ("property=\""@ + property + "\""@) + " content=\""@ + content + "\">"@
}

proof fn lemma_slice(a: Seq<char>, m: Seq<char>, b: Seq<char>)
    ensures
        byte_slice(
            a + m + b,
            byte_place(a + m + b, a.len() as int),
            byte_place(a + m + b, (a + m).len() as int),
        ) == Some(m),
{
    let text = a + m + b;
    assert(text.take(a.len() as int) =~= a);
    assert(text.take((a + m).len() as int) =~= a + m);
    lemma_head_boundary(text, a.len() as int);
    lemma_head_boundary(text, (a + m).len() as int);
    lemma_encode_concat(a + m, b);
    lemma_encode_concat(a, m);
    let bytes = encode_utf8(text);
    assert(bytes.subrange(byte_len(a) as int, byte_len(a + m) as int) =~= encode_utf8(m));
    vstd::utf8::encode_utf8_decode_utf8(m);
}

/// Where a text occurs first.
proof fn lemma_found(text: Seq<char>, part: Seq<char>, at: int)
    requires
        occurs_at(text, part, at),
        forall|i: int| 0 <= i < at ==> !occurs_at(text, part, i),
    ensures
        find_from(text, part, 0) == Some(at),
{
    lemma_find_from(text, part, 0);
}

/// What stands before the content of a tag.
spec fn tag_head(property: Seq<char>) -> Seq<char> {
    "<meta "@ + ("property=\""@ + property + "\""@) + " "@
}

spec fn content_needle() -> Seq<char> {
    "content"@ + "="@ + "\""@
}

proof fn lemma_tag_shape(property: Seq<char>, content: Seq<char>)
    ensures
        meta_tag(property, content) == tag_head(property) + content_needle() + (content + "\">"@),
        tag_head(property).len() == property.len() + 18,
        content_needle().len() == 9,
        content_needle()[0] == 'c' && content_needle()[7] == '=',
{
    reveal_strlit("<meta ");
    reveal_strlit("property=\"");
    reveal_strlit("\"");
    reveal_strlit(" content=\"");
    reveal_strlit("content");
    reveal_strlit("=");
    reveal_strlit(" ");
    assert(" content=\""@ =~= " "@ + content_needle());
    assert(meta_tag(property, content) =~= tag_head(property) + content_needle() + (content
        + "\">"@));
}

/// The only equals sign before that of the content is that of the property.
proof fn lemma_equals_signs(property: Seq<char>, k: int)
    requires
        forall|i: int| 0 <= i < property.len() ==> #[trigger] property[i] != '=',
        0 <= k < property.len() + 18 + 7,
        (tag_head(property) + content_needle())[k] == '=',
    ensures
        k == 14,
        tag_head(property)[7] != 'c',
{
    reveal_strlit("<meta ");
    reveal_strlit("property=\"");
    reveal_strlit("\"");
    reveal_strlit("content");
    reveal_strlit("=");
    reveal_strlit(" ");
    let head = tag_head(property);
    let both = head + content_needle();
    if k < 6 {
        assert(both[k] == "<meta "@[k]);
    } else if k < 16 {
        assert(both[k] == "property=\""@[k - 6]);
    } else if k < 16 + property.len() {
        assert(both[k] == property[k - 16]);
    } else if k == 16 + property.len() {
        assert(both[k] == '"');
    } else if k == 17 + property.len() {
        assert(both[k] == ' ');
    } else {
        assert(both[k] == "content"@[k - head.len()]);
    }
    assert(head[7] == "property=\""@[1]);
}

proof fn lemma_content_place(property: Seq<char>, content: Seq<char>)
    requires
        forall|i: int| 0 <= i < property.len() ==> #[trigger] property[i] != '=',
    ensures
        find_from(meta_tag(property, content), content_needle(), 0) == Some(
            property.len() as int + 18,
        ),
{
    lemma_tag_shape(property, content);
    let tag = meta_tag(property, content);
    let needle = content_needle();
    let n = property.len() as int + 18;
    assert(tag.subrange(n, n + 9) =~= needle);
    assert forall|i: int| 0 <= i < n implies !occurs_at(tag, needle, i) by {
        if occurs_at(tag, needle, i) {
            let part = tag.subrange(i, i + 9);
            assert(part[0] == tag[i] && part[7] == tag[i + 7]);
            assert((tag_head(property) + needle)[i + 7] == tag[i + 7]);
            lemma_equals_signs(property, i + 7);
            assert(tag[7] == tag_head(property)[7]);
        }
    }
    lemma_found(tag, needle, n);
}

/// The content of a tag is what stands in quotes behind the word.
proof fn lemma_content(property: Seq<char>, content: Seq<char>)
    requires
        is_plain_value(content),
        forall|i: int| 0 <= i < property.len() ==> #[trigger] property[i] != '=',
    ensures
        ({
            let tag = meta_tag(property, content);
            attr_in(tag, tag, "content"@) == ExtractView::Found(content)
        }),
{
    lemma_tag_shape(property, content);
    lemma_content_place(property, content);
    let tag = meta_tag(property, content);
    let at = property.len() as int + 18 + 9;
    lemma_head_boundary(tag, at);
    let rest = tag.skip(at);
    assert(rest =~= content + "\">"@);
    let c = content.len() as int;
    reveal_strlit("\"");
    reveal_strlit("\">");
    assert(rest.subrange(c, c + 1) =~= "\""@);
    assert forall|i: int| 0 <= i < c implies !occurs_at(rest, "\""@, i) by {
        if occurs_at(rest, "\""@, i) {
            assert(rest.subrange(i, i + 1)[0] == rest[i]);
            assert(rest[i] == content[i]);
        }
    }
    lemma_found(rest, "\""@, c);
    assert(rest.take(c) =~= content);
    crate::laws::texts::trimmed_texts_stay(content);
    texts_without_entities_stay(content);
    assert(quoted_attr(tag, tag, "content"@, "\""@) == ExtractView::Found(content));
}

proof fn lemma_property_place(a: Seq<char>, property: Seq<char>, tail: Seq<char>)
    requires
        forall|i: int| 0 <= i < property.len() ==> #[trigger] property[i] != '<',
        !contains(a + "<meta "@, "property=\""@ + property + "\""@),
    ensures
        ({
            let needle = "property=\""@ + property + "\""@;
            find_from(a + "<meta "@ + needle + tail, needle, 0) == Some(a.len() as int + 6)
        }),
{
    reveal_strlit("<meta ");
    reveal_strlit("property=\"");
    reveal_strlit("\"");
    let needle = "property=\""@ + property + "\""@;
    let head = a + "<meta "@;
    let html = head + needle + tail;
    let n = head.len() as int;
    assert(html.subrange(n, n + needle.len()) =~= needle);
    assert forall|i: int| 0 <= i < n implies !occurs_at(html, needle, i) by {
        if occurs_at(html, needle, i) {
            let part = html.subrange(i, i + needle.len());
            let s = a.len() as int;
            if i + needle.len() <= n {
                assert(head.subrange(i, i + needle.len()) =~= part);
                assert(occurs_at(head, needle, i));
            } else if i >= s {
                assert(part[0] == html[i]);
                assert(html[i] == "<meta "@[i - s]);
            } else {
                let k = s - i;
                assert(part[k] == html[s]);
                assert(html[s] == '<');
                lemma_no_opening(property, k);
            }
        }
    }
    lemma_found(html, needle, n);
}

proof fn lemma_no_opening(property: Seq<char>, k: int)
    requires
        forall|i: int| 0 <= i < property.len() ==> #[trigger] property[i] != '<',
        0 <= k < ("property=\""@ + property + "\""@).len(),
    ensures
        ("property=\""@ + property + "\""@)[k] != '<',
{
    reveal_strlit("property=\"");
    reveal_strlit("\"");
    let needle = "property=\""@ + property + "\""@;
    if k < 10 {
        assert(needle[k] == "property=\""@[k]);
    } else if k < 10 + property.len() {
        assert(needle[k] == property[k - 10]);
    }
}

/// A tag begins at the last opening bracket before the property.
proof fn lemma_tag_begins(a: Seq<char>)
    ensures
        rfind_from(a + "<meta "@, "<"@, a.len() as int + 5) == Some(a.len() as int),
{
    reveal_strlit("<meta ");
    reveal_strlit("<");
    let before = a + "<meta "@;
    let s = a.len() as int;
    assert(before.subrange(s, s + 1) =~= "<"@);
    lemma_rfind_from(before, "<"@, s + 5);
    let start = rfind_from(before, "<"@, s + 5)->0;
    assert(occurs_at(before, "<"@, s));
    if start > s {
        assert(before.subrange(start, start + 1)[0] == before[start]);
        assert(before[start] == "<meta "@[start - s]);
    }
}

/// A tag ends at the first closing bracket.
proof fn lemma_tag_ends(a: Seq<char>, property: Seq<char>, content: Seq<char>, b: Seq<char>)
    requires
        is_plain_value(content),
        forall|i: int| 0 <= i < property.len() ==> #[trigger] property[i] != '>',
    ensures
        find_from(a + meta_tag(property, content) + b, ">"@, a.len() as int) == Some(
            a.len() as int + meta_tag(property, content).len() - 1,
        ),
        meta_tag(property, content).len() > 0,
{
    reveal_strlit("\">");
    reveal_strlit(">");
    let tag = meta_tag(property, content);
    let html = a + tag + b;
    let s = a.len() as int;
    let e = s + tag.len() - 1;
    assert(tag.last() == '>');
    assert(html[e] == tag.last());
    assert(html.subrange(e, e + 1) =~= ">"@);
    lemma_find_from(html, ">"@, s);
    let end = find_from(html, ">"@, s)->0;
    assert(occurs_at(html, ">"@, e));
    if end < e {
        assert(html.subrange(end, end + 1)[0] == html[end]);
        assert(html[end] == tag[end - s]);
        lemma_no_bracket(property, content, end - s);
    }
}

/// A meta tag of a page gives its content, as it stands there: what comes before
/// must not name the same property, and the page is in small letters.
pub proof fn meta_tags_give_their_content(
    a: Seq<char>,
    property: Seq<char>,
    content: Seq<char>,
    b: Seq<char>,
)
    requires
        is_plain_value(content),
        property.len() > 0,
        forall|i: int|
            0 <= i < property.len() ==> #[trigger] property[i] != '=' && property[i] != '"'
                && property[i] != '<' && property[i] != '>',
        lowercase(meta_tag(property, content)) == meta_tag(property, content),
        !contains(a + "<meta "@, "property=\""@ + property + "\""@),
    ensures
        ({
            let html = a + meta_tag(property, content) + b;
            og_in(html, html, property) == ExtractView::Found(content)
        }),
{
    let tag = meta_tag(property, content);
    let html = a + tag + b;
    let needle = "property=\""@ + property + "\""@;
    let tail = " content=\""@ + content + "\">"@ + b;
    reveal_strlit("<meta ");
    assert(html =~= a + "<meta "@ + needle + tail);
    lemma_property_place(a, property, tail);
    let n = a.len() as int + 6;
    assert(html.take(n) =~= a + "<meta "@);
    lemma_tag_begins(a);
    lemma_tag_ends(a, property, content, b);
    lemma_slice(a, tag, b);
    assert((a + tag).len() == a.len() + tag.len());
    lemma_content(property, content);
    assert(content_around(html, html, needle) == ExtractView::Found(content));
}

proof fn lemma_no_bracket(property: Seq<char>, content: Seq<char>, k: int)
    requires
        is_plain_value(content),
        forall|i: int| 0 <= i < property.len() ==> #[trigger] property[i] != '>',
        0 <= k < meta_tag(property, content).len() - 1,
    ensures
        meta_tag(property, content)[k] != '>',
{
    reveal_strlit("<meta ");
    reveal_strlit("property=\"");
    reveal_strlit("\"");
    reveal_strlit(" content=\"");
    reveal_strlit("\">");
    let tag = meta_tag(property, content);
    let p = 16int;
    let q = p + property.len() + 1;
    if k < 6 {
        assert(tag[k] == "<meta "@[k]);
    } else if k < p {
        assert(tag[k] == "property=\""@[k - 6]);
    } else if k < p + property.len() {
        assert(tag[k] == property[k - p]);
    } else if k < q {
        assert(tag[k] == '"');
    } else if k < q + 10 {
        assert(tag[k] == " content=\""@[k - q]);
    } else if k < q + 10 + content.len() {
        assert(tag[k] == content[k - q - 10]);
    } else {
        assert(tag[k] == '"');
    }
}

/// A page that does not name a property has none.
pub proof fn unnamed_properties_are_absent(html: Seq<char>, lower: Seq<char>, property: Seq<char>)
    requires
        !contains(lower, "property=\""@ + property + "\""@),
        !contains(lower, "property='"@ + property + "'"@),
    ensures
        og_in(html, lower, property) == ExtractView::Absent,
{
    lemma_find_from(lower, "property=\""@ + property + "\""@, 0);
    lemma_find_from(lower, "property='"@ + property + "'"@, 0);
}

/// A page that does not describe itself has no description.
pub proof fn undescribed_pages_have_no_description(html: Seq<char>, lower: Seq<char>)
    requires
        !contains(lower, "name=\"description\""@),
        !contains(lower, "name='description'"@),
    ensures
        description_in(html, lower) == ExtractView::Absent,
{
    lemma_find_from(lower, "name=\"description\""@, 0);
    lemma_find_from(lower, "name='description'"@, 0);
}

/// The title of a page is what stands between its title tags.
pub proof fn titles_stand_between_their_tags(a: Seq<char>, title: Seq<char>, b: Seq<char>)
    requires
        is_plain_value(title),
        forall|i: int| 0 <= i < a.len() ==> #[trigger] a[i] != '<',
    ensures
        ({
            let html = a + "<title>"@ + title + "</title>"@ + b;
            title_in(html, html) == ExtractView::Found(title)
        }),
{
    reveal_strlit("<title>");
    reveal_strlit("</title>");
    reveal_strlit("<title");
    reveal_strlit(">");
    let html = a + "<title>"@ + title + "</title>"@ + b;
    let s = a.len() as int;
    assert(html.subrange(s, s + 6) =~= "<title"@);
    assert forall|i: int| 0 <= i < s implies !occurs_at(html, "<title"@, i) by {
        if occurs_at(html, "<title"@, i) {
            assert(html.subrange(i, i + 6)[0] == html[i]);
            assert(html[i] == a[i]);
        }
    }
    lemma_found(html, "<title"@, s);
    assert(html.subrange(s + 6, s + 7) =~= ">"@);
    lemma_find_from(html, ">"@, s);
    let e = find_from(html, ">"@, s)->0;
    assert(occurs_at(html, ">"@, s + 6));
    if e < s + 6 {
        assert(html.subrange(e, e + 1)[0] == html[e]);
        assert(html[e] == "<title>"@[e - s]);
    }
    assert(e == s + 6);
    let c = s + 7 + title.len();
    assert(html.subrange(c, c + 8) =~= "</title>"@);
    lemma_find_from(html, "</title>"@, s + 7);
    let k = find_from(html, "</title>"@, s + 7)->0;
    assert(occurs_at(html, "</title>"@, c));
    if k < c {
        assert(html.subrange(k, k + 8)[0] == html[k]);
        assert(html[k] == title[k - s - 7]);
    }
    assert(k == c);
    let head = a + "<title>"@;
    assert(html =~= head + title + ("</title>"@ + b));
    lemma_slice(head, title, "</title>"@ + b);
    crate::laws::texts::trimmed_texts_stay(title);
    texts_without_entities_stay(title);
}

/// A page without a title tag has no title of its own.
pub proof fn untitled_pages_have_no_title(html: Seq<char>, lower: Seq<char>)
    requires
        !contains(lower, "<title"@),
    ensures
        title_in(html, lower) == ExtractView::Absent,
{
    lemma_find_from(lower, "<title"@, 0);
}

// ---------------------------------------------------------------------------
// Previews
// ---------------------------------------------------------------------------

/// A preview shows what the page says of itself: its title and description, its
/// own picture, and the name of its site or else the host. A page that says
/// neither title nor description has no preview.
pub proof fn previews_show_what_the_page_says(
    html: Seq<char>,
    lower: Seq<char>,
    host: Option<Seq<char>>,
    text: Seq<char>,
)
    ensures
        match preview_in(html, lower, host) {
            Ok(p) => {
                &&& og_in(html, lower, "og:image"@) == ExtractView::Found(text) ==> p.image_url
                    == Some(text)
                &&& og_in(html, lower, "og:image"@) == ExtractView::Absent ==> p.image_url is None
                &&& og_in(html, lower, "og:title"@) == ExtractView::Found(text) ==> p.title
                    == Some(text)
                &&& og_in(html, lower, "og:title"@) == ExtractView::Absent && title_in(html, lower)
                    == ExtractView::Found(text) ==> p.title == Some(text)
                &&& og_in(html, lower, "og:description"@) == ExtractView::Found(text)
                    ==> p.description == Some(text)
                &&& og_in(html, lower, "og:description"@) == ExtractView::Absent && description_in(
                    html,
                    lower,
                ) == ExtractView::Found(text) ==> p.description == Some(text)
                &&& og_in(html, lower, "og:site_name"@) == ExtractView::Found(text) ==> p.site_name
                    == Some(text)
                &&& og_in(html, lower, "og:site_name"@) == ExtractView::Absent ==> p.site_name
                    == host
                &&& p.title is Some || p.description is Some
            },
            Err(error) => error == "misaligned html"@ || error == "no preview data"@ && !(og_in(
                html,
                lower,
                "og:title"@,
            ) is Found) && !(title_in(html, lower) is Found && og_in(html, lower, "og:title"@)
                is Absent) && !(og_in(html, lower, "og:description"@) is Found),
        },
{
}

/// The picture of a preview is the one that the page names.
pub proof fn previews_show_the_picture_of_the_page(
    a: Seq<char>,
    url: Seq<char>,
    b: Seq<char>,
    host: Option<Seq<char>>,
)
    requires
        is_plain_value(url),
        lowercase(meta_tag("og:image"@, url)) == meta_tag("og:image"@, url),
        !contains(a + "<meta "@, "property=\""@ + "og:image"@ + "\""@),
    ensures
        ({
            let html = a + meta_tag("og:image"@, url) + b;
            preview_in(html, html, host) is Ok ==> preview_in(html, html, host)->Ok_0.image_url
                == Some(url)
        }),
{
    reveal_strlit("og:image");
    meta_tags_give_their_content(a, "og:image"@, url, b);
}

/// A page that names no picture has none in its preview.
pub proof fn previews_invent_no_picture(
    html: Seq<char>,
    lower: Seq<char>,
    host: Option<Seq<char>>,
)
    requires
        !contains(lower, "property=\""@ + "og:image"@ + "\""@),
        !contains(lower, "property='"@ + "og:image"@ + "'"@),
    ensures
        preview_in(html, lower, host) is Ok ==> preview_in(html, lower, host)->Ok_0.image_url
            is None,
{
    unnamed_properties_are_absent(html, lower, "og:image"@);
}

/// The title of a preview is the one that the page names for sharing.
pub proof fn previews_show_the_title_of_the_page(
    a: Seq<char>,
    title: Seq<char>,
    b: Seq<char>,
    host: Option<Seq<char>>,
)
    requires
        is_plain_value(title),
        lowercase(meta_tag("og:title"@, title)) == meta_tag("og:title"@, title),
        !contains(a + "<meta "@, "property=\""@ + "og:title"@ + "\""@),
    ensures
        ({
            let html = a + meta_tag("og:title"@, title) + b;
            match preview_in(html, html, host) {
                Ok(p) => p.title == Some(title),
                Err(error) => error == "misaligned html"@,
            }
        }),
{
    reveal_strlit("og:title");
    meta_tags_give_their_content(a, "og:title"@, title, b);
}

/// Only pages have previews.
pub proof fn only_pages_have_previews(url: Seq<char>, content_type: Seq<char>, bytes: Seq<u8>)
    requires
        !contains(lowercase(content_type), "text/html"@),
    ensures
        page_preview(url, content_type, bytes) is Err,
{
}

} // verus!
