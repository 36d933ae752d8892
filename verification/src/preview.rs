//! What a web page says about itself.
//!
//! Places in a page are found in its lower-case form and then used in the page
//! itself, as byte offsets. Lower case may take more or fewer bytes, so an
//! offset may fall inside a character of the page; that is told apart from a
//! page without the thing that was looked for.
use vstd::prelude::*;
use vstd::string::StringSliceAdditionalSpecFns;
use vstd::utf8::{decode_utf8, encode_utf8, is_char_boundary, valid_utf8};
use crate::text::{
    after_byte, byte_len, bytes_in, chars_of, contains, find, find_from, is_boundary, join3,
    lowercase, opt_text, replaced, rfind, rfind_from, split_bytes, str_contains, str_replace,
    str_trim, text_between, to_lowercase, trim,
};
use crate::urls::{parse_url, url_parts};

verus! {

/// How many bytes of a page are looked at.
pub const PAGE_BYTES: usize = 65_536;

/// What a page says about itself.
#[derive(Debug)]
pub struct LinkPreview {
    pub title: Option<String>,
    pub description: Option<String>,
    pub image_url: Option<String>,
    pub site_name: Option<String>,
}

pub ghost struct LinkPreviewView {
    pub title: Option<Seq<char>>,
    pub description: Option<Seq<char>>,
    pub image_url: Option<Seq<char>>,
    pub site_name: Option<Seq<char>>,
}

impl View for LinkPreview {
    type V = LinkPreviewView;

    open spec fn view(&self) -> LinkPreviewView {
        LinkPreviewView {
            title: opt_text(self.title),
            description: opt_text(self.description),
            image_url: opt_text(self.image_url),
            site_name: opt_text(self.site_name),
        }
    }
}

/// What came of looking for something in a page.
#[derive(Debug)]
pub enum Extract {
    Found(String),
    /// It is not there.
    Absent,
    /// It is not there, and there is no use in looking further.
    Broken,
    /// An offset fell inside a character.
    Misaligned,
}

pub ghost enum ExtractView {
    Found(Seq<char>),
    Absent,
    Broken,
    Misaligned,
}

impl View for Extract {
    type V = ExtractView;

    open spec fn view(&self) -> ExtractView {
        match self {
            Extract::Found(text) => ExtractView::Found(text@),
            Extract::Absent => ExtractView::Absent,
            Extract::Broken => ExtractView::Broken,
            Extract::Misaligned => ExtractView::Misaligned,
        }
    }
}

// ---------------------------------------------------------------------------
// Entities
// ---------------------------------------------------------------------------

/// A text with the entities of HTML that stand for single characters replaced,
/// one kind after the other.
pub open spec fn entities_decoded(text: Seq<char>) -> Seq<char> {
    let t1 = replaced(text, "&amp;"@, "&"@);
    let t2 = replaced(t1, "&lt;"@, "<"@);
    let t3 = replaced(t2, "&gt;"@, ">"@);
    let t4 = replaced(t3, "&quot;"@, "\""@);
    let t5 = replaced(t4, "&#39;"@, "'"@);
    let t6 = replaced(t5, "&apos;"@, "'"@);
    replaced(t6, "&nbsp;"@, " "@)
}

pub fn decode_entities(text: &str) -> (decoded: String)
    ensures
        decoded@ == entities_decoded(text@),
{
    proof {
        reveal_strlit("&amp;");
        reveal_strlit("&lt;");
        reveal_strlit("&gt;");
        reveal_strlit("&quot;");
        reveal_strlit("&#39;");
        reveal_strlit("&apos;");
        reveal_strlit("&nbsp;");
    }
    let t1 = str_replace(text, "&amp;", "&");
    let t2 = str_replace(t1.as_str(), "&lt;", "<");
    let t3 = str_replace(t2.as_str(), "&gt;", ">");
    let t4 = str_replace(t3.as_str(), "&quot;", "\"");
    let t5 = str_replace(t4.as_str(), "&#39;", "'");
    let t6 = str_replace(t5.as_str(), "&apos;", "'");
    str_replace(t6.as_str(), "&nbsp;", " ")
}

// ---------------------------------------------------------------------------
// Attributes
// ---------------------------------------------------------------------------

/// Where the first `n` characters of a text end, in bytes.
pub open spec fn byte_place(text: Seq<char>, n: int) -> int {
    byte_len(text.take(n)) as int
}

/// The part of a text between two byte offsets.
pub open spec fn byte_slice(text: Seq<char>, from: int, to: int) -> Option<Seq<char>> {
    if from <= to && is_boundary(text, from) && is_boundary(text, to) {
        Some(decode_utf8(encode_utf8(text).subrange(from, to)))
    } else {
        None
    }
}

/// The value of an attribute in one kind of quotes.
pub open spec fn quoted_attr(
    tag: Seq<char>,
    lower: Seq<char>,
    attr: Seq<char>,
    quote: Seq<char>,
) -> ExtractView {
    let needle = attr + "="@ + quote;
    match find_from(lower, needle, 0) {
        Some(at) => {
            let start = byte_place(lower, at + needle.len());
            if !is_boundary(tag, start) {
                ExtractView::Misaligned
            } else {
                let rest = after_byte(tag, start);
                match find_from(rest, quote, 0) {
                    Some(end) => if trim(rest.take(end)).len() == 0 {
                        ExtractView::Absent
                    } else {
                        ExtractView::Found(entities_decoded(trim(rest.take(end))))
                    },
                    None => ExtractView::Absent,
                }
            }
        },
        None => ExtractView::Absent,
    }
}

/// The value of an attribute of a tag, given the tag in lower case.
pub open spec fn attr_in(tag: Seq<char>, lower: Seq<char>, attr: Seq<char>) -> ExtractView {
    match quoted_attr(tag, lower, attr, "\""@) {
        ExtractView::Absent => quoted_attr(tag, lower, attr, "'"@),
        other => other,
    }
}

fn find_quoted_attr(tag: &str, lower: &str, attr: &str, quote: &str) -> (found: Extract)
    ensures
        found@ == quoted_attr(tag@, lower@, attr@, quote@),
{
    let needle = chars_of(join3(attr, "=", quote).as_str());
    let l = chars_of(lower);
    let n: usize = l.len();
    match find(l.as_slice(), needle.as_slice(), 0) {
        Some(at) => {
            let head = text_between(l.as_slice(), 0, at + needle.len());
            assert(head@ =~= lower@.take(at + needle@.len()));
            let start: usize = bytes_in(head.as_str());
            if !tag.is_char_boundary(start) {
                return Extract::Misaligned;
            }
            let halves = split_bytes(tag, start);
            let rest = chars_of(halves.1.as_str());
            let q = chars_of(quote);
            match find(rest.as_slice(), q.as_slice(), 0) {
                Some(end) => {
                    let raw = text_between(rest.as_slice(), 0, end);
                    assert(raw@ =~= rest@.take(end as int));
                    let value = str_trim(raw.as_str());
                    if value.as_str().is_empty() {
                        Extract::Absent
                    } else {
                        Extract::Found(decode_entities(value.as_str()))
                    }
                },
                None => Extract::Absent,
            }
        },
        None => Extract::Absent,
    }
}

/// The value of an attribute of a tag, given the tag in lower case.
pub fn attr_val_in(tag: &str, lower: &str, attr: &str) -> (found: Extract)
    ensures
        found@ == attr_in(tag@, lower@, attr@),
{
    match find_quoted_attr(tag, lower, attr, "\"") {
        Extract::Absent => find_quoted_attr(tag, lower, attr, "'"),
        other => other,
    }
}

/// The value of an attribute of a tag.
pub fn extract_attr_val(tag: &str, attr: &str) -> (found: Extract)
    ensures
        found@ == attr_in(tag@, lowercase(tag@), attr@),
{
    let lower = to_lowercase(tag);
    attr_val_in(tag, lower.as_str(), attr)
}

// ---------------------------------------------------------------------------
// Meta tags
// ---------------------------------------------------------------------------

/// The content of the tag around the first occurrence of a text.
pub open spec fn content_around(html: Seq<char>, lower: Seq<char>, needle: Seq<char>) -> ExtractView {
    match find_from(lower, needle, 0) {
        Some(at) => match rfind_from(lower.take(at), "<"@, at - 1) {
            Some(start) => match find_from(lower, ">"@, start) {
                Some(end) => match byte_slice(
                    html,
                    byte_place(lower, start),
                    byte_place(lower, end + 1),
                ) {
                    Some(tag) => attr_in(tag, lowercase(tag), "content"@),
                    None => ExtractView::Misaligned,
                },
                None => ExtractView::Broken,
            },
            None => ExtractView::Broken,
        },
        None => ExtractView::Absent,
    }
}

/// The content of a tag that is known by one of two texts.
pub open spec fn content_of(
    html: Seq<char>,
    lower: Seq<char>,
    first: Seq<char>,
    second: Seq<char>,
) -> ExtractView {
    match content_around(html, lower, first) {
        ExtractView::Absent => content_around(html, lower, second),
        other => other,
    }
}

/// What an Open Graph property of a page says, given the page in lower case.
pub open spec fn og_in(html: Seq<char>, lower: Seq<char>, property: Seq<char>) -> ExtractView {
    content_of(
        html,
        lower,
        "property=\""@ + property + "\""@,
        "property='"@ + property + "'"@,
    )
}

/// What a page describes itself as, given the page in lower case.
pub open spec fn description_in(html: Seq<char>, lower: Seq<char>) -> ExtractView {
    content_of(html, lower, "name=\"description\""@, "name='description'"@)
}

/// The title of a page, given the page in lower case.
pub open spec fn title_in(html: Seq<char>, lower: Seq<char>) -> ExtractView {
    match find_from(lower, "<title"@, 0) {
        Some(start) => match find_from(lower, ">"@, start) {
            Some(end) => match find_from(lower, "</title>"@, end + 1) {
                Some(close) => match byte_slice(
                    html,
                    byte_place(lower, end + 1),
                    byte_place(lower, close),
                ) {
                    Some(text) => if trim(text).len() == 0 {
                        ExtractView::Absent
                    } else {
                        ExtractView::Found(entities_decoded(trim(text)))
                    },
                    None => ExtractView::Misaligned,
                },
                None => ExtractView::Absent,
            },
            None => ExtractView::Absent,
        },
        None => ExtractView::Absent,
    }
}

fn slice_bytes(text: &str, from: usize, to: usize) -> (part: Option<String>)
    ensures
        opt_text(part) == byte_slice(text@, from as int, to as int),
{
    if from > to || !text.is_char_boundary(from) || !text.is_char_boundary(to) {
        return None;
    }
    proof {
        vstd::utf8::encode_utf8_valid_utf8(text@);
    }
    let (head, _) = text.split_at(to);
    proof {
        lemma_boundary_in_prefix(text@, from as int, to as int);
        assert(encode_utf8(head@) =~= encode_utf8(text@).subrange(0, to as int));
    }
    let (_, part) = head.split_at(from);
    proof {
        vstd::utf8::encode_utf8_decode_utf8(part@);
        crate::text::lemma_boundary_range(encode_utf8(text@), to as int);
        assert(encode_utf8(text@).subrange(0, to as int).subrange(from as int, to as int)
            =~= encode_utf8(text@).subrange(from as int, to as int));
    }
    Some(part.to_owned())
}

proof fn lemma_boundary_in_prefix(text: Seq<char>, from: int, to: int)
    requires
        from <= to,
        is_boundary(text, from),
        is_boundary(text, to),
    ensures
        is_char_boundary(encode_utf8(text).subrange(0, to), from),
{
    let bytes = encode_utf8(text);
    let head = bytes.subrange(0, to);
    vstd::utf8::encode_utf8_valid_utf8(text);
    crate::text::lemma_boundary_range(bytes, to);
    crate::text::lemma_boundary_range(bytes, from);
    vstd::utf8::valid_utf8_split(bytes, to);
    assert(valid_utf8(head));
    if from == to {
        vstd::utf8::is_char_boundary_start_end_of_seq(head);
    } else {
        vstd::utf8::is_char_boundary_iff_not_is_continuation_byte(bytes, from);
        vstd::utf8::is_char_boundary_iff_not_is_continuation_byte(head, from);
        assert(head[from] == bytes[from]);
    }
}

fn byte_place_of(text: &Vec<char>, n: usize) -> (at: usize)
    requires
        n <= text@.len(),
    ensures
        at == byte_place(text@, n as int),
{
    let head = text_between(text.as_slice(), 0, n);
    assert(head@ =~= text@.take(n as int));
    bytes_in(head.as_str())
}

fn find_content(html: &str, lower: &Vec<char>, needle: &str) -> (found: Extract)
    ensures
        found@ == content_around(html@, lower@, needle@),
{
    proof {
        reveal_strlit("<");
        reveal_strlit(">");
    }
    let n: usize = lower.len();
    let at: usize = match find(lower.as_slice(), chars_of(needle).as_slice(), 0) {
        Some(at) => at,
        None => {
            return Extract::Absent;
        },
    };
    let before = vstd::slice::slice_subrange(lower.as_slice(), 0, at);
    assert(before@ =~= lower@.take(at as int));
    let start: usize = match rfind(before, chars_of("<").as_slice()) {
        Some(start) => start,
        None => {
            return Extract::Broken;
        },
    };
    let end: usize = match find(lower.as_slice(), chars_of(">").as_slice(), start) {
        Some(end) => end,
        None => {
            return Extract::Broken;
        },
    };
    let from: usize = byte_place_of(lower, start);
    let to: usize = byte_place_of(lower, end + 1);
    match slice_bytes(html, from, to) {
        Some(tag) => extract_attr_val(tag.as_str(), "content"),
        None => Extract::Misaligned,
    }
}

fn find_content_of(html: &str, lower: &Vec<char>, first: &str, second: &str) -> (found: Extract)
    ensures
        found@ == content_of(html@, lower@, first@, second@),
{
    match find_content(html, lower, first) {
        Extract::Absent => find_content(html, lower, second),
        other => other,
    }
}

/// What an Open Graph property of a page says, given the page in lower case.
pub fn og_tag_in(html: &str, lower: &str, property: &str) -> (found: Extract)
    ensures
        found@ == og_in(html@, lower@, property@),
{
    let l = chars_of(lower);
    let first = join3("property=\"", property, "\"");
    let second = join3("property='", property, "'");
    find_content_of(html, &l, first.as_str(), second.as_str())
}

/// What an Open Graph property of a page says.
pub fn extract_og_tag(html: &str, property: &str) -> (found: Extract)
    ensures
        found@ == og_in(html@, lowercase(html@), property@),
{
    let lower = to_lowercase(html);
    og_tag_in(html, lower.as_str(), property)
}

/// What a page describes itself as, given the page in lower case.
pub fn meta_description_in(html: &str, lower: &str) -> (found: Extract)
    ensures
        found@ == description_in(html@, lower@),
{
    let l = chars_of(lower);
    find_content_of(html, &l, "name=\"description\"", "name='description'")
}

/// What a page describes itself as.
pub fn extract_meta_description(html: &str) -> (found: Extract)
    ensures
        found@ == description_in(html@, lowercase(html@)),
{
    let lower = to_lowercase(html);
    meta_description_in(html, lower.as_str())
}

/// The title of a page, given the page in lower case.
pub fn html_title_in(html: &str, lower: &str) -> (found: Extract)
    ensures
        found@ == title_in(html@, lower@),
{
    proof {
        reveal_strlit("<title");
        reveal_strlit(">");
        reveal_strlit("</title>");
    }
    let l = chars_of(lower);
    let n: usize = l.len();
    let start: usize = match find(l.as_slice(), chars_of("<title").as_slice(), 0) {
        Some(start) => start,
        None => {
            return Extract::Absent;
        },
    };
    let end: usize = match find(l.as_slice(), chars_of(">").as_slice(), start) {
        Some(end) => end,
        None => {
            return Extract::Absent;
        },
    };
    let close: usize = match find(l.as_slice(), chars_of("</title>").as_slice(), end + 1) {
        Some(close) => close,
        None => {
            return Extract::Absent;
        },
    };
    let from: usize = byte_place_of(&l, end + 1);
    let to: usize = byte_place_of(&l, close);
    match slice_bytes(html, from, to) {
        Some(raw) => {
            let text = str_trim(raw.as_str());
            if text.as_str().is_empty() {
                Extract::Absent
            } else {
                Extract::Found(decode_entities(text.as_str()))
            }
        },
        None => Extract::Misaligned,
    }
}

/// The title of a page.
pub fn extract_html_title(html: &str) -> (found: Extract)
    ensures
        found@ == title_in(html@, lowercase(html@)),
{
    let lower = to_lowercase(html);
    html_title_in(html, lower.as_str())
}

// ---------------------------------------------------------------------------
// The preview
// ---------------------------------------------------------------------------

/// The text that `String::from_utf8_lossy` reads from bytes.
pub uninterp spec fn lossy_text(bytes: Seq<u8>) -> Seq<char>;

/// `String::from_utf8_lossy`: the text that bytes spell in UTF-8, with a
/// replacement character for what is not UTF-8.
#[verifier::external_body]
pub(crate) fn read_lossy(bytes: &[u8]) -> (text: String)
    ensures
        text@ == lossy_text(bytes@),
        valid_utf8(bytes@) ==> text@ == decode_utf8(bytes@),
{
    String::from_utf8_lossy(bytes).to_string()
}

/// The first of two things that were looked for in a page.
pub open spec fn either(first: ExtractView, second: ExtractView) -> ExtractView {
    match first {
        ExtractView::Absent => second,
        ExtractView::Broken => second,
        other => other,
    }
}

pub open spec fn text_found(found: ExtractView) -> Option<Seq<char>> {
    match found {
        ExtractView::Found(text) => Some(text),
        _ => None,
    }
}

/// The preview of a page, given the page in lower case and its host. A page
/// with neither a title nor a description has none.
pub open spec fn preview_in(html: Seq<char>, lower: Seq<char>, host: Option<Seq<char>>) -> Result<
    LinkPreviewView,
    Seq<char>,
> {
    let title = either(og_in(html, lower, "og:title"@), title_in(html, lower));
    let description = either(
        og_in(html, lower, "og:description"@),
        description_in(html, lower),
    );
    let image = og_in(html, lower, "og:image"@);
    let site = og_in(html, lower, "og:site_name"@);
    if title is Misaligned || description is Misaligned || image is Misaligned || site
        is Misaligned {
        Err("misaligned html"@)
    } else if text_found(title) is None && text_found(description) is None {
        Err("no preview data"@)
    } else {
        Ok(
            LinkPreviewView {
                title: text_found(title),
                description: text_found(description),
                image_url: text_found(image),
                site_name: match text_found(site) {
                    Some(name) => Some(name),
                    None => host,
                },
            },
        )
    }
}

pub open spec fn preview_result(result: Result<LinkPreview, String>) -> Result<
    LinkPreviewView,
    Seq<char>,
> {
    match result {
        Ok(preview) => Ok(preview@),
        Err(error) => Err(error@),
    }
}

fn found_or_none(found: Extract) -> (text: Option<String>)
    ensures
        opt_text(text) == text_found(found@),
{
    match found {
        Extract::Found(text) => Some(text),
        _ => None,
    }
}

/// The preview of a page, given the page in lower case and its host.
pub fn link_preview_in(html: &str, lower: &str, host: Option<String>) -> (result: Result<
    LinkPreview,
    String,
>)
    ensures
        preview_result(result) == preview_in(html@, lower@, opt_text(host)),
{
    let title = match og_tag_in(html, lower, "og:title") {
        Extract::Absent => html_title_in(html, lower),
        Extract::Broken => html_title_in(html, lower),
        other => other,
    };
    let description = match og_tag_in(html, lower, "og:description") {
        Extract::Absent => meta_description_in(html, lower),
        Extract::Broken => meta_description_in(html, lower),
        other => other,
    };
    let image = og_tag_in(html, lower, "og:image");
    let site = og_tag_in(html, lower, "og:site_name");
    if matches!(title, Extract::Misaligned) || matches!(description, Extract::Misaligned)
        || matches!(image, Extract::Misaligned) || matches!(site, Extract::Misaligned) {
        return Err("misaligned html".to_owned());
    }
    let title = found_or_none(title);
    let description = found_or_none(description);
    if title.is_none() && description.is_none() {
        return Err("no preview data".to_owned());
    }
    let site_name = match found_or_none(site) {
        Some(name) => Some(name),
        None => host,
    };
    Ok(LinkPreview { title, description, image_url: found_or_none(image), site_name })
}

/// The host of an address.
pub open spec fn url_host(url: Seq<char>) -> Option<Seq<char>> {
    match url_parts(url) {
        Some((_, host, _)) => host,
        None => None,
    }
}

/// The part of the bytes of a page that is looked at.
pub open spec fn page_head(bytes: Seq<u8>) -> Seq<u8> {
    if bytes.len() > PAGE_BYTES {
        bytes.take(PAGE_BYTES as int)
    } else {
        bytes
    }
}

/// The preview of an address, from the type and the bytes that it answered
/// with.
pub open spec fn page_preview(url: Seq<char>, content_type: Seq<char>, bytes: Seq<u8>) -> Result<
    LinkPreviewView,
    Seq<char>,
> {
    if !contains(lowercase(content_type), "text/html"@) {
        Err("not html"@)
    } else {
        let html = lossy_text(page_head(bytes));
        preview_in(html, lowercase(html), url_host(url))
    }
}

/// The preview of an address, from the type and the bytes that it answered
/// with.
pub fn link_preview(url: &str, content_type: &str, bytes: &[u8]) -> (result: Result<
    LinkPreview,
    String,
>)
    ensures
        preview_result(result) == page_preview(url@, content_type@, bytes@),
{
    let kind = to_lowercase(content_type);
    if !str_contains(kind.as_str(), "text/html") {
        return Err("not html".to_owned());
    }
    let n: usize = if bytes.len() > PAGE_BYTES {
        PAGE_BYTES
    } else {
        bytes.len()
    };
    let head = vstd::slice::slice_subrange(bytes, 0, n);
    assert(head@ =~= page_head(bytes@));
    let html = read_lossy(head);
    let lower = to_lowercase(html.as_str());
    let host = match parse_url(url) {
        Some(parts) => parts.host,
        None => None,
    };
    link_preview_in(html.as_str(), lower.as_str(), host)
}

} // verus!
