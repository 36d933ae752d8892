//! What the relay tells of a line or a buffer beside its text.
use vstd::prelude::*;
use vstd::string::StringSliceAdditionalSpecFns;
use crate::encoding::{base64url_decoded, decode_base64url, from_utf8, utf8_text};
use crate::json::{
    get, get_object, get_str, get_text_or, json_object, json_text, member, member_object,
    member_text, member_text_or, Json, JsonMember,
};
use crate::models::{
    opt_view, MatrixMedia, MatrixMemberProfile, MatrixReplyContext, MatrixReplyLineKind, MediaView,
    Nick, NickView, ProfileView, ReplyView,
};
use crate::people::{any_whitespace, has_space};
use crate::seqs::{first_from, first_index, keep_items, lemma_first_from, views};
use crate::state::WeeChatApp;
use crate::text::{
    chars_of, ends_with, is_ascii_space, lowercase, opt_str, opt_text, parse_u64, parse_unsigned,
    same_text, split_on, starts_with, str_ends_with, str_split, str_starts_with, str_strip_prefix,
    str_trim, strip_prefix, text_in, texts, to_lowercase, trim,
};
use crate::urls::{parse_url, parts_view, url_parts, UrlParts};

verus! {

// ---------------------------------------------------------------------------
// Tags
// ---------------------------------------------------------------------------

/// The texts among the items of an array.
pub open spec fn text_items(items: Seq<Json>) -> Seq<Seq<char>> {
    items.filter_map(|item: Json| json_text(item))
}

/// The tags of a line: an array of texts, or one text with commas.
pub open spec fn tags(obj: Seq<JsonMember>) -> Seq<Seq<char>> {
    match member(obj, "tags"@) {
        Some(Json::Array(items)) => text_items(items@),
        Some(Json::Text(list)) => split_on(list@, ',').map_values(|t: Seq<char>| trim(t)),
        _ => Seq::empty(),
    }
}

/// The text of a Matrix event id.
pub open spec fn is_event_id(text: Seq<char>) -> bool {
    starts_with(text, "$"@) && !has_space(text)
}

/// The text of a Matrix room id.
pub open spec fn is_room_id(text: Seq<char>) -> bool {
    starts_with(text, "!"@) && !has_space(text)
}

/// What stands behind a prefix in the first tag that begins with it.
pub open spec fn tag_behind(list: Seq<Seq<char>>, prefix: Seq<char>) -> Option<Seq<char>> {
    match first_index(list, |t: Seq<char>| starts_with(t, prefix)) {
        Some(i) => strip_prefix(list[i], prefix),
        None => None,
    }
}

/// The event id behind a prefix in the first tag that holds one.
pub open spec fn event_id_behind(list: Seq<Seq<char>>, prefix: Seq<char>) -> Option<Seq<char>> {
    match first_index(
        list,
        |t: Seq<char>| starts_with(t, prefix) && is_event_id(t.skip(prefix.len() as int)),
    ) {
        Some(i) => strip_prefix(list[i], prefix),
        None => None,
    }
}

/// The texts among the items of an array.
pub fn texts_among(items: &Vec<Json>) -> (list: Vec<String>)
    ensures
        texts(list@) == text_items(items@),
{
    let ghost f = |item: Json| json_text(item);
    let mut list: Vec<String> = Vec::new();
    let mut i: usize = 0;
    proof {
        reveal(Seq::filter_map);
        assert(texts(list@) =~= items@.take(0).filter_map(f));
    }
    while i < items.len()
        invariant
            i <= items@.len(),
            f == (|item: Json| json_text(item)),
            texts(list@) == items@.take(i as int).filter_map(f),
        decreases items@.len() - i,
    {
        let ghost before = list@;
        proof {
            items@.lemma_filter_map_take_succ(f, i as int);
        }
        match items[i].as_str() {
            Some(text) => {
                list.push(text.to_owned());
                assert(texts(list@) =~= texts(before) + seq![text@]);
            },
            None => {
                assert(texts(before) + Seq::<Seq<char>>::empty() =~= texts(before));
            },
        }
        i = i + 1;
    }
    assert(items@.take(i as int) =~= items@);
    list
}

fn is_event(text: &str) -> (yes: bool)
    ensures
        yes == is_event_id(text@),
{
    str_starts_with(text, "$") && !any_whitespace(text)
}

/// The bytes that pairs of hexadecimal digits spell.
pub open spec fn hex_bytes(text: Seq<u8>) -> Option<Seq<u8>> {
    if text.len() % 2 == 0 && forall|i: int| 0 <= i < text.len() ==> is_hex_digit(#[trigger] text[i]) {
        Some(
            Seq::new(
                text.len() / 2,
                |i: int| (hex_value(text[2 * i]) * 16 + hex_value(text[2 * i + 1])) as u8,
            ),
        )
    } else {
        None
    }
}

pub open spec fn is_hex_digit(b: u8) -> bool {
    0x30 <= b <= 0x39 || 0x41 <= b <= 0x46 || 0x61 <= b <= 0x66
}

pub open spec fn hex_value(b: u8) -> int {
    if b <= 0x39 {
        b - 0x30
    } else if b <= 0x46 {
        b - 0x41 + 10
    } else {
        b - 0x61 + 10
    }
}

fn hex_digit(b: u8) -> (value: Option<u8>)
    ensures
        match value {
            Some(v) => is_hex_digit(b) && v == hex_value(b) && v < 16,
            None => !is_hex_digit(b),
        },
{
    if 0x30 <= b && b <= 0x39 {
        Some(b - 0x30)
    } else if 0x41 <= b && b <= 0x46 {
        Some(b - 0x41 + 10)
    } else if 0x61 <= b && b <= 0x66 {
        Some(b - 0x61 + 10)
    } else {
        None
    }
}

/// The text that pairs of hexadecimal digits spell in UTF-8.
pub open spec fn hex_text(encoded: Seq<char>) -> Option<Seq<char>> {
    match hex_bytes(vstd::utf8::encode_utf8(encoded)) {
        Some(bytes) => utf8_text(bytes),
        None => None,
    }
}

/// The text that a base64 text spells in UTF-8.
pub open spec fn base64_text(encoded: Seq<char>) -> Option<Seq<char>> {
    match base64url_decoded(encoded) {
        Some(bytes) => utf8_text(bytes),
        None => None,
    }
}

/// What a line answers, as its tags tell.
pub open spec fn reply_in(list: Seq<Seq<char>>) -> Option<ReplyView> {
    let header = list.contains("matrix_reply_header"@);
    if !header && !list.contains("matrix_reply_quote"@) {
        None
    } else {
        Some(
            ReplyView {
                event_id: match tag_behind(list, "matrix_reply_id_"@) {
                    Some(id) if is_event_id(id) => Some(id),
                    _ => None,
                },
                sender: match tag_behind(list, "matrix_reply_sender_hex_"@) {
                    Some(encoded) => hex_text(encoded),
                    None => None,
                },
                kind: if header {
                    MatrixReplyLineKind::Header
                } else {
                    MatrixReplyLineKind::Quote
                },
            },
        )
    }
}

pub open spec fn all_slashes(path: Seq<char>) -> bool {
    forall|i: int| 0 <= i < path.len() ==> #[trigger] path[i] == '/'
}

/// The address of Matrix media: its scheme, a host and a path that is not empty.
pub open spec fn is_media_address(parts: Option<(Seq<char>, Option<Seq<char>>, Seq<char>)>) -> bool {
    match parts {
        Some((scheme, host, path)) => scheme == "mxc"@ && host is Some && !all_slashes(path),
        None => false,
    }
}

pub open spec fn is_media_kind(kind: Seq<char>) -> bool {
    kind == "audio"@ || kind == "file"@ || kind == "image"@ || kind == "video"@
}

/// The media of a line, from its address and the parts of it, its kind and its
/// name.
pub open spec fn media_from(
    mxc_uri: Seq<char>,
    parts: Option<(Seq<char>, Option<Seq<char>>, Seq<char>)>,
    kind: Option<Seq<char>>,
    name: Option<Seq<char>>,
) -> Option<MediaView> {
    match kind {
        Some(kind) if is_media_address(parts) && is_media_kind(kind) => Some(
            MediaView {
                mxc_uri,
                name: match name {
                    Some(name) if trim(name).len() > 0 => name,
                    _ => "attachment"@,
                },
                kind,
            },
        ),
        _ => None,
    }
}

pub open spec fn media_text(list: Seq<Seq<char>>, prefix: Seq<char>) -> Option<Seq<char>> {
    match tag_behind(list, prefix) {
        Some(encoded) => base64_text(encoded),
        None => None,
    }
}

/// The media of a line, as its tags tell.
pub open spec fn media_in(list: Seq<Seq<char>>) -> Option<MediaView> {
    match media_text(list, "matrix_media_uri_"@) {
        Some(mxc_uri) if list.contains("matrix_media"@) => media_from(
            mxc_uri,
            url_parts(mxc_uri),
            tag_behind(list, "matrix_media_kind_"@),
            media_text(list, "matrix_media_name_"@),
        ),
        _ => None,
    }
}

fn path_is_empty(path: &str) -> (empty: bool)
    ensures
        empty == all_slashes(path@),
{
    let chars = chars_of(path);
    let mut i: usize = 0;
    while i < chars.len()
        invariant
            i <= chars@.len(),
            chars@ == path@,
            forall|j: int| 0 <= j < i ==> #[trigger] path@[j] == '/',
        decreases chars@.len() - i,
    {
        if chars[i] != '/' {
            assert(path@[i as int] != '/');
            return false;
        }
        i = i + 1;
    }
    true
}

/// The media of a line, from its address and what the address is made of, its
/// kind and its name.
pub fn matrix_media_from_parts(
    mxc_uri: String,
    parts: Option<UrlParts>,
    kind: Option<String>,
    name: Option<String>,
) -> (media: Option<MatrixMedia>)
    ensures
        opt_view(media) == media_from(mxc_uri@, parts_view(parts), opt_text(kind), opt_text(name)),
{
    let parts = match parts {
        Some(parts) => parts,
        None => {
            return None;
        },
    };
    if !same_text(parts.scheme.as_str(), "mxc") || parts.host.is_none() || path_is_empty(
        parts.path.as_str(),
    ) {
        return None;
    }
    let kind = match kind {
        Some(kind) => kind,
        None => {
            return None;
        },
    };
    if !same_text(kind.as_str(), "audio") && !same_text(kind.as_str(), "file") && !same_text(
        kind.as_str(),
        "image",
    ) && !same_text(kind.as_str(), "video") {
        return None;
    }
    let name = match name {
        Some(name) => if str_trim(name.as_str()).as_str().is_empty() {
            "attachment".to_owned()
        } else {
            name
        },
        None => "attachment".to_owned(),
    };
    Some(MatrixMedia { mxc_uri, name, kind })
}

impl WeeChatApp {
    /// The tags of a line.
    pub fn tags_of(obj: &Vec<JsonMember>) -> (list: Vec<String>)
        ensures
            texts(list@) == tags(obj@),
    {
        match get(obj, "tags") {
            Some(Json::Array(items)) => texts_among(items),
            Some(Json::Text(text)) => {
                let parts = str_split(text.as_str(), ',');
                let mut list: Vec<String> = Vec::new();
                let mut i: usize = 0;
                while i < parts.len()
                    invariant
                        i <= parts@.len(),
                        list@.len() == i,
                        forall|j: int| 0 <= j < i ==> (#[trigger] list@[j])@ == trim(parts@[j]@),
                    decreases parts@.len() - i,
                {
                    list.push(str_trim(parts[i].as_str()));
                    i = i + 1;
                }
                assert(texts(list@) =~= split_on(text@, ',').map_values(|t: Seq<char>| trim(t)))
                    by {
                    assert forall|j: int| 0 <= j < list@.len() implies texts(list@)[j] == trim(
                        split_on(text@, ',')[j],
                    ) by {
                        assert(texts(parts@)[j] == parts@[j]@);
                    }
                }
                list
            },
            _ => {
                let list: Vec<String> = Vec::new();
                assert(texts(list@) =~= Seq::empty());
                list
            },
        }
    }

    pub fn has_tag(obj: &Vec<JsonMember>, tag: &str) -> (yes: bool)
        ensures
            yes == tags(obj@).contains(tag@),
    {
        text_in(&Self::tags_of(obj), tag)
    }

    /// The event id behind a prefix.
    pub fn tag_value(obj: &Vec<JsonMember>, prefix: &str) -> (value: Option<String>)
        ensures
            opt_text(value) == event_id_behind(tags(obj@), prefix@),
    {
        let list = Self::tags_of(obj);
        let ghost all = tags(obj@);
        let ghost p = |t: Seq<char>|
            starts_with(t, prefix@) && is_event_id(t.skip(prefix@.len() as int));
        let mut i: usize = 0;
        while i < list.len()
            invariant
                i <= list@.len(),
                texts(list@) == all,
                all == tags(obj@),
                p == (|t: Seq<char>|
                    starts_with(t, prefix@) && is_event_id(t.skip(prefix@.len() as int))),
                first_index(all, p) == first_from(all, p, i as int),
            decreases list@.len() - i,
        {
            assert(all[i as int] == list@[i as int]@);
            match str_strip_prefix(list[i].as_str(), prefix) {
                Some(value) => {
                    if is_event(value.as_str()) {
                        return Some(value);
                    }
                },
                None => {},
            }
            i = i + 1;
        }
        None
    }

    /// What stands behind a prefix.
    pub fn raw_tag_value(obj: &Vec<JsonMember>, prefix: &str) -> (value: Option<String>)
        ensures
            opt_text(value) == tag_behind(tags(obj@), prefix@),
    {
        let list = Self::tags_of(obj);
        let ghost all = tags(obj@);
        let ghost p = |t: Seq<char>| starts_with(t, prefix@);
        let mut i: usize = 0;
        while i < list.len()
            invariant
                i <= list@.len(),
                texts(list@) == all,
                all == tags(obj@),
                p == (|t: Seq<char>| starts_with(t, prefix@)),
                first_index(all, p) == first_from(all, p, i as int),
            decreases list@.len() - i,
        {
            assert(all[i as int] == list@[i as int]@);
            match str_strip_prefix(list[i].as_str(), prefix) {
                Some(value) => {
                    return Some(value);
                },
                None => {},
            }
            i = i + 1;
        }
        None
    }

    /// The text that pairs of hexadecimal digits spell in UTF-8.
    pub fn decode_hex_utf8(encoded: &str) -> (text: Option<String>)
        ensures
            opt_text(text) == hex_text(encoded@),
    {
        let digits = encoded.as_bytes();
        if digits.len() % 2 != 0 {
            return None;
        }
        let mut bytes: Vec<u8> = Vec::new();
        let mut i: usize = 0;
        while i < digits.len()
            invariant
                i <= digits@.len(),
                i % 2 == 0,
                digits@.len() % 2 == 0,
                digits@ == vstd::utf8::encode_utf8(encoded@),
                bytes@.len() * 2 == i,
                forall|j: int| 0 <= j < i ==> is_hex_digit(#[trigger] digits@[j]),
                forall|j: int|
                    0 <= j < bytes@.len() ==> #[trigger] bytes@[j] == (hex_value(digits@[2 * j])
                        * 16 + hex_value(digits@[2 * j + 1])) as u8,
            decreases digits@.len() - i,
        {
            match (hex_digit(digits[i]), hex_digit(digits[i + 1])) {
                (Some(high), Some(low)) => {
                    bytes.push(high * 16 + low);
                },
                _ => {
                    assert(!is_hex_digit(digits@[i as int]) || !is_hex_digit(digits@[i + 1]));
                    return None;
                },
            }
            i = i + 2;
        }
        assert(hex_bytes(digits@) is Some);
        assert(bytes@ =~= hex_bytes(digits@)->0);
        from_utf8(bytes)
    }

    /// What a line answers.
    pub fn matrix_reply_from_tags(obj: &Vec<JsonMember>) -> (reply: Option<MatrixReplyContext>)
        ensures
            opt_view(reply) == reply_in(tags(obj@)),
    {
        let kind = if Self::has_tag(obj, "matrix_reply_header") {
            MatrixReplyLineKind::Header
        } else if Self::has_tag(obj, "matrix_reply_quote") {
            MatrixReplyLineKind::Quote
        } else {
            return None;
        };
        let sender = match Self::raw_tag_value(obj, "matrix_reply_sender_hex_") {
            Some(value) => Self::decode_hex_utf8(value.as_str()),
            None => None,
        };
        let event_id = match Self::raw_tag_value(obj, "matrix_reply_id_") {
            Some(value) => if is_event(value.as_str()) {
                Some(value)
            } else {
                None
            },
            None => None,
        };
        Some(MatrixReplyContext { event_id, sender, kind })
    }

    /// The text that a base64 tag holds.
    pub fn decode_media_tag(obj: &Vec<JsonMember>, prefix: &str) -> (text: Option<String>)
        ensures
            opt_text(text) == media_text(tags(obj@), prefix@),
    {
        match Self::raw_tag_value(obj, prefix) {
            Some(encoded) => match decode_base64url(encoded.as_str()) {
                Some(bytes) => from_utf8(bytes),
                None => None,
            },
            None => None,
        }
    }

    /// The media of a line.
    pub fn matrix_media_from_tags(obj: &Vec<JsonMember>) -> (media: Option<MatrixMedia>)
        ensures
            opt_view(media) == media_in(tags(obj@)),
    {
        if !Self::has_tag(obj, "matrix_media") {
            return None;
        }
        match Self::decode_media_tag(obj, "matrix_media_uri_") {
            Some(mxc_uri) => {
                let parts = parse_url(mxc_uri.as_str());
                let kind = Self::raw_tag_value(obj, "matrix_media_kind_");
                let name = Self::decode_media_tag(obj, "matrix_media_name_");
                matrix_media_from_parts(mxc_uri, parts, kind, name)
            },
            None => None,
        }
    }
}

// ---------------------------------------------------------------------------
// Buffers
// ---------------------------------------------------------------------------

/// What kind of buffer it is, where it belongs, and what is set about it.
#[derive(Debug)]
pub struct BufferMeta {
    pub topic: String,
    pub modes: String,
    pub kind: String,
    pub server: String,
}

pub ghost struct MetaView {
    pub topic: Seq<char>,
    pub modes: Seq<char>,
    pub kind: Seq<char>,
    pub server: Seq<char>,
}

impl View for BufferMeta {
    type V = MetaView;

    open spec fn view(&self) -> MetaView {
        MetaView {
            topic: self.topic@,
            modes: self.modes@,
            kind: self.kind@,
            server: self.server@,
        }
    }
}

pub open spec fn local_variables(obj: Seq<JsonMember>) -> Option<Seq<JsonMember>> {
    member_object(obj, "local_variables"@)
}

/// The text of a local variable.
pub open spec fn local_text(obj: Seq<JsonMember>, key: Seq<char>) -> Option<Seq<char>> {
    match local_variables(obj) {
        Some(vars) => member_text(vars, key),
        None => None,
    }
}

pub open spec fn text_or(text: Option<Seq<char>>, other: Seq<char>) -> Seq<char> {
    match text {
        Some(t) => t,
        None => other,
    }
}

pub open spec fn is_core_buffer(full_name: Seq<char>, plugin: Seq<char>) -> bool {
    full_name == "weechat"@ || plugin == "core"@ || full_name == "core.weechat"@ || ends_with(
        full_name,
        ".core.weechat"@,
    )
}

/// The topic of a buffer: a local variable, or else what was known, or else the
/// first of three older places.
pub open spec fn topic_in(obj: Seq<JsonMember>, topic: Seq<char>) -> Seq<char> {
    let known = text_or(local_text(obj, "topic"@), topic);
    if known.len() > 0 {
        known
    } else {
        match (
            member_text(obj, "title"@),
            member_text(obj, "topic"@),
            member_text(obj, "topic_string"@),
        ) {
            (Some(t), _, _) => t,
            (None, Some(t), _) => t,
            (None, None, Some(t)) => t,
            (None, None, None) => known,
        }
    }
}

/// Whether the full name of an IRC buffer is that of a server buffer.
pub open spec fn names_server(parts: Seq<Seq<char>>) -> bool {
    parts.len() <= 2 || parts.len() == 3 && parts[1] == "server"@
}

pub open spec fn kind_in(obj: Seq<JsonMember>, full_name: Seq<char>, plugin: Seq<char>) -> Seq<
    char,
> {
    let kind = text_or(local_text(obj, "type"@), "unknown"@);
    if kind != "unknown"@ {
        kind
    } else if plugin == "irc"@ {
        let parts = split_on(full_name, '.');
        if names_server(parts) || parts[1] == "server"@ {
            "server"@
        } else {
            "channel"@
        }
    } else if plugin.len() > 0 {
        "server"@
    } else {
        "unknown"@
    }
}

pub open spec fn server_in(obj: Seq<JsonMember>, full_name: Seq<char>, plugin: Seq<char>) -> Seq<
    char,
> {
    let server = match local_text(obj, "server"@) {
        Some(s) => lowercase(s),
        None => "orphans"@,
    };
    if server != "orphans"@ {
        server
    } else if plugin == "irc"@ {
        let parts = split_on(full_name, '.');
        if parts.len() >= 3 && parts[1] == "server"@ {
            lowercase(parts[2])
        } else if parts.len() >= 2 {
            lowercase(parts[1])
        } else {
            server
        }
    } else if plugin.len() > 0 {
        lowercase(plugin)
    } else {
        server
    }
}

/// What an entry of the relay's list tells of a buffer.
pub open spec fn metadata(
    obj: Seq<JsonMember>,
    topic: Seq<char>,
    modes: Seq<char>,
    full_name: Seq<char>,
    plugin: Seq<char>,
) -> MetaView {
    if is_core_buffer(full_name, plugin) {
        MetaView { topic, modes, kind: "core"@, server: "!00_core"@ }
    } else {
        MetaView {
            topic: topic_in(obj, topic),
            modes: text_or(local_text(obj, "modes"@), modes),
            kind: kind_in(obj, full_name, plugin),
            server: server_in(obj, full_name, plugin),
        }
    }
}

pub open spec fn plugin_in(obj: Seq<JsonMember>) -> Seq<char> {
    match member_text(obj, "plugin"@) {
        Some(plugin) => plugin,
        None => text_or(local_text(obj, "plugin"@), Seq::empty()),
    }
}

pub open spec fn room_id_in(obj: Seq<JsonMember>) -> Option<Seq<char>> {
    match local_text(obj, "room_id"@) {
        Some(id) if is_room_id(id) => Some(id),
        _ => None,
    }
}

pub open spec fn thread_root_in(obj: Seq<JsonMember>) -> Option<Seq<char>> {
    match local_text(obj, "thread_root"@) {
        Some(id) if is_event_id(id) => Some(id),
        _ => None,
    }
}

/// A member profile that can be trusted: a user id, and no avatar that is not
/// Matrix media.
pub open spec fn is_safe_profile(profile: ProfileView) -> bool {
    starts_with(profile.user_id, "@"@) && !has_space(profile.user_id) && match profile.avatar_mxc {
        Some(uri) => starts_with(uri, "mxc://"@) && !has_space(uri),
        None => true,
    }
}

pub open spec fn safe_profiles(profiles: Seq<ProfileView>) -> Seq<ProfileView> {
    profiles.filter(|p: ProfileView| is_safe_profile(p))
}

/// The text of a local variable.
pub fn get_local<'a>(obj: &'a Vec<JsonMember>, key: &str) -> (text: Option<&'a str>)
    ensures
        opt_str(text) == local_text(obj@, key@),
{
    match get_object(obj, "local_variables") {
        Some(vars) => get_str(vars, key),
        None => None,
    }
}

fn topic_of(obj: &Vec<JsonMember>, topic: String) -> (found: String)
    ensures
        found@ == topic_in(obj@, topic@),
{
    let known = match get_local(obj, "topic") {
        Some(t) => t.to_owned(),
        None => topic,
    };
    if !known.as_str().is_empty() {
        return known;
    }
    match get_str(obj, "title") {
        Some(t) => {
            return t.to_owned();
        },
        None => {},
    }
    match get_str(obj, "topic") {
        Some(t) => {
            return t.to_owned();
        },
        None => {},
    }
    match get_str(obj, "topic_string") {
        Some(t) => t.to_owned(),
        None => known,
    }
}

fn kind_of(obj: &Vec<JsonMember>, full_name: &str, plugin: &str) -> (kind: String)
    ensures
        kind@ == kind_in(obj@, full_name@, plugin@),
{
    let kind = match get_local(obj, "type") {
        Some(k) => k.to_owned(),
        None => "unknown".to_owned(),
    };
    if !same_text(kind.as_str(), "unknown") {
        return kind;
    }
    if same_text(plugin, "irc") {
        let parts = str_split(full_name, '.');
        assert(parts@.len() > 1 ==> texts(parts@)[1] == parts@[1]@);
        if parts.len() <= 2 || same_text(parts[1].as_str(), "server") {
            "server".to_owned()
        } else {
            "channel".to_owned()
        }
    } else if !plugin.is_empty() {
        "server".to_owned()
    } else {
        kind
    }
}

fn server_of(obj: &Vec<JsonMember>, full_name: &str, plugin: &str) -> (server: String)
    ensures
        server@ == server_in(obj@, full_name@, plugin@),
{
    let server = match get_local(obj, "server") {
        Some(s) => to_lowercase(s),
        None => "orphans".to_owned(),
    };
    if !same_text(server.as_str(), "orphans") {
        return server;
    }
    if same_text(plugin, "irc") {
        let parts = str_split(full_name, '.');
        assert(parts@.len() > 1 ==> texts(parts@)[1] == parts@[1]@);
        assert(parts@.len() > 2 ==> texts(parts@)[2] == parts@[2]@);
        if parts.len() >= 3 && same_text(parts[1].as_str(), "server") {
            to_lowercase(parts[2].as_str())
        } else if parts.len() >= 2 {
            to_lowercase(parts[1].as_str())
        } else {
            server
        }
    } else if !plugin.is_empty() {
        to_lowercase(plugin)
    } else {
        server
    }
}

impl WeeChatApp {
    /// What an entry of the relay's list tells of a buffer whose topic and
    /// modes were known as given.
    pub fn extract_metadata(
        obj: &Vec<JsonMember>,
        topic: String,
        modes: String,
        full_name: &str,
        plugin: &str,
    ) -> (meta: BufferMeta)
        ensures
            meta@ == metadata(obj@, topic@, modes@, full_name@, plugin@),
    {
        if same_text(full_name, "weechat") || same_text(plugin, "core") || same_text(
            full_name,
            "core.weechat",
        ) || str_ends_with(full_name, ".core.weechat") {
            return BufferMeta {
                topic,
                modes,
                kind: "core".to_owned(),
                server: "!00_core".to_owned(),
            };
        }
        let modes = match get_local(obj, "modes") {
            Some(m) => m.to_owned(),
            None => modes,
        };
        BufferMeta {
            topic: topic_of(obj, topic),
            modes,
            kind: kind_of(obj, full_name, plugin),
            server: server_of(obj, full_name, plugin),
        }
    }

    /// The room and the thread root of a Matrix buffer.
    pub fn extract_matrix_buffer_metadata(obj: &Vec<JsonMember>) -> (ids: (
        Option<String>,
        Option<String>,
    ))
        ensures
            opt_text(ids.0) == room_id_in(obj@),
            opt_text(ids.1) == thread_root_in(obj@),
    {
        let room_id = match get_local(obj, "room_id") {
            Some(id) => if str_starts_with(id, "!") && !any_whitespace(id) {
                Some(id.to_owned())
            } else {
                None
            },
            None => None,
        };
        let thread_root = match get_local(obj, "thread_root") {
            Some(id) => if is_event(id) {
                Some(id.to_owned())
            } else {
                None
            },
            None => None,
        };
        (room_id, thread_root)
    }

    /// The text that lists the members of a Matrix buffer.
    pub fn matrix_members_text(obj: &Vec<JsonMember>) -> (text: Option<&str>)
        ensures
            opt_str(text) == local_text(obj@, "matrix_members_v1"@),
    {
        get_local(obj, "matrix_members_v1")
    }

    /// The text that lists whom a message in the buffer can mention.
    pub fn matrix_mentions_text(obj: &Vec<JsonMember>) -> (text: Option<&str>)
        ensures
            opt_str(text) == local_text(obj@, "matrix_mentions"@),
    {
        get_local(obj, "matrix_mentions")
    }

    /// The member profiles that can be trusted among those that were listed.
    pub fn extract_matrix_member_profiles(listed: Vec<MatrixMemberProfile>) -> (profiles: Vec<
        MatrixMemberProfile,
    >)
        ensures
            views(profiles@) == safe_profiles(views(listed@)),
    {
        let keep = |p: &MatrixMemberProfile| -> (r: bool)
            ensures
                r == is_safe_profile(p@),
            {
                str_starts_with(p.user_id.as_str(), "@") && !any_whitespace(p.user_id.as_str())
                    && match &p.avatar_mxc {
                    Some(uri) => str_starts_with(uri.as_str(), "mxc://") && !any_whitespace(
                        uri.as_str(),
                    ),
                    None => true,
                }
            };
        keep_items(listed, keep, Ghost(|p: ProfileView| is_safe_profile(p)))
    }

    /// The plugin that a buffer belongs to.
    pub fn extract_buffer_plugin(obj: &Vec<JsonMember>) -> (plugin: String)
        ensures
            plugin@ == plugin_in(obj@),
    {
        match get_str(obj, "plugin") {
            Some(plugin) => plugin.to_owned(),
            None => match get_local(obj, "plugin") {
                Some(plugin) => plugin.to_owned(),
                None => String::new(),
            },
        }
    }
}

// ---------------------------------------------------------------------------
// Nicks
// ---------------------------------------------------------------------------

/// A nick as the relay describes it.
pub open spec fn nick_in(obj: Seq<JsonMember>) -> Option<NickView> {
    let name = member_text_or(obj, "name"@, Seq::empty());
    let color = member_text_or(obj, "color"@, Seq::empty());
    if name.len() == 0 {
        None
    } else {
        Some(
            NickView {
                name,
                prefix: member_text_or(obj, "prefix"@, Seq::empty()),
                color_ansi: if color.len() == 0 {
                    member_text_or(obj, "color_name"@, Seq::empty())
                } else {
                    color
                },
                away: false,
            },
        )
    }
}

pub open spec fn json_nick(value: Json) -> Option<NickView> {
    match json_object(value) {
        Some(obj) => nick_in(obj),
        None => None,
    }
}

/// The items of an array.
pub open spec fn array_member(obj: Seq<JsonMember>, key: Seq<char>) -> Seq<Json> {
    match member(obj, key) {
        Some(Json::Array(items)) => items@,
        _ => Seq::empty(),
    }
}

/// The nicks that a group lists itself.
pub open spec fn direct_nicks(obj: Seq<JsonMember>) -> Seq<NickView> {
    array_member(obj, "nicks"@).filter_map(|n: Json| json_nick(n))
}

/// The nicks of a group and of the groups inside it, in order.
pub open spec fn nicks_in(value: Json) -> Seq<NickView>
    decreases value, 0nat,
    via nicks_in_decreases
{
    match value {
        Json::Object(obj) => direct_nicks(obj@) + match member(obj@, "groups"@) {
            Some(Json::Array(groups)) => nicks_in_groups(groups@, groups@.len()),
            _ => Seq::empty(),
        },
        _ => Seq::empty(),
    }
}

/// The nicks of the first `n` groups.
pub open spec fn nicks_in_groups(groups: Seq<Json>, n: nat) -> Seq<NickView>
    decreases groups, n,
    via nicks_in_groups_decreases
{
    if n == 0 || n > groups.len() {
        Seq::empty()
    } else {
        nicks_in_groups(groups, (n - 1) as nat) + nicks_in(groups[n - 1])
    }
}

#[via_fn]
proof fn nicks_in_decreases(value: Json) {
    match value {
        Json::Object(obj) => {
            lemma_first_from(obj@, |m: JsonMember| m.key@ == "groups"@, 0);
            match first_index(obj@, |m: JsonMember| m.key@ == "groups"@) {
                Some(i) => {
                    assert(decreases_to!(value => obj));
                    assert(decreases_to!(obj => obj@));
                    assert(decreases_to!(obj@ => obj@[i]));
                    assert(decreases_to!(obj@[i] => obj@[i].value));
                    match obj@[i].value {
                        Json::Array(items) => {
                            assert(decreases_to!(obj@[i].value => items));
                            assert(decreases_to!(items => items@));
                        },
                        _ => {},
                    }
                },
                None => {},
            }
        },
        _ => {},
    }
}

#[via_fn]
proof fn nicks_in_groups_decreases(groups: Seq<Json>, n: nat) {
    if n > 0 && n <= groups.len() {
        assert(decreases_to!(groups => groups[n - 1]));
    }
}

proof fn lemma_group_smaller(value: Json, obj: Vec<JsonMember>, groups: Vec<Json>, k: int)
    requires
        value == Json::Object(obj),
        member(obj@, "groups"@) == Some(Json::Array(groups)),
        0 <= k < groups@.len(),
    ensures
        decreases_to!(value => groups@[k]),
{
    let p = |m: JsonMember| m.key@ == "groups"@;
    lemma_first_from(obj@, p, 0);
    let i = first_index(obj@, p)->0;
    match value {
        Json::Object(same) => {
            assert(decreases_to!(value => same));
        },
        _ => {},
    }
    assert(decreases_to!(obj => obj@));
    assert(decreases_to!(obj@ => obj@[i]));
    assert(decreases_to!(obj@[i] => obj@[i].value));
    match obj@[i].value {
        Json::Array(same) => {
            assert(decreases_to!(obj@[i].value => same));
        },
        _ => {},
    }
    assert(decreases_to!(groups => groups@));
    assert(decreases_to!(groups@ => groups@[k]));
}

impl WeeChatApp {
    /// A nick as the relay describes it. One without a name is none.
    pub fn parse_nick_obj(obj: &Vec<JsonMember>) -> (nick: Option<Nick>)
        ensures
            opt_view(nick) == nick_in(obj@),
    {
        proof {
            reveal_strlit("");
            assert(""@ =~= Seq::<char>::empty());
        }
        let name = get_text_or(obj, "name", "");
        if name.as_str().is_empty() {
            return None;
        }
        let prefix = get_text_or(obj, "prefix", "");
        let color = get_text_or(obj, "color", "");
        let color_ansi = if color.as_str().is_empty() {
            get_text_or(obj, "color_name", "")
        } else {
            color
        };
        Some(Nick { name, prefix, color_ansi, away: false })
    }

    /// Appends the nicks of a group and of the groups inside it.
    pub fn extract_nicks(value: &Json, nicks: &mut Vec<Nick>)
        ensures
            views(final(nicks)@) == views(old(nicks)@) + nicks_in(*value),
        decreases value,
    {
        let ghost start = views(nicks@);
        match value {
            Json::Object(obj) => {
                let ghost f = |n: Json| json_nick(n);
                let ghost direct = array_member(obj@, "nicks"@);
                match get(obj, "nicks") {
                    Some(Json::Array(items)) => {
                        let mut i: usize = 0;
                        proof {
                            reveal(Seq::filter_map);
                            assert(start + items@.take(0).filter_map(f) =~= start);
                        }
                        while i < items.len()
                            invariant
                                i <= items@.len(),
                                f == (|n: Json| json_nick(n)),
                                views(nicks@) == start + items@.take(i as int).filter_map(f),
                            decreases items@.len() - i,
                        {
                            proof {
                                items@.lemma_filter_map_take_succ(f, i as int);
                            }
                            let ghost before = nicks@;
                            match items[i].as_object() {
                                Some(members) => match Self::parse_nick_obj(members) {
                                    Some(nick) => {
                                        nicks.push(nick);
                                        assert(views(nicks@) =~= views(before).push(nick@));
                                        assert(views(before).push(nick@) =~= start + (items@.take(
                                            i as int,
                                        ).filter_map(f) + seq![nick@]));
                                    },
                                    None => {
                                        assert(items@.take(i as int).filter_map(f) + Seq::<
                                            NickView,
                                        >::empty() =~= items@.take(i as int).filter_map(f));
                                    },
                                },
                                None => {
                                    assert(items@.take(i as int).filter_map(f) + Seq::<
                                        NickView,
                                    >::empty() =~= items@.take(i as int).filter_map(f));
                                },
                            }
                            i = i + 1;
                        }
                        assert(items@.take(i as int) =~= items@);
                    },
                    _ => {
                        proof {
                            reveal(Seq::filter_map);
                            assert(start + Seq::<Json>::empty().filter_map(f) =~= start);
                        }
                    },
                }
                assert(views(nicks@) == start + direct_nicks(obj@));
                let ghost middle = views(nicks@);
                match get(obj, "groups") {
                    Some(Json::Array(groups)) => {
                        let mut k: usize = 0;
                        assert(middle + nicks_in_groups(groups@, 0) =~= middle);
                        while k < groups.len()
                            invariant
                                k <= groups@.len(),
                                *value == Json::Object(*obj),
                                member(obj@, "groups"@) == Some(Json::Array(*groups)),
                                views(nicks@) == middle + nicks_in_groups(groups@, k as nat),
                            decreases groups@.len() - k,
                        {
                            proof {
                                lemma_group_smaller(*value, *obj, *groups, k as int);
                            }
                            Self::extract_nicks(&groups[k], nicks);
                            assert(middle + nicks_in_groups(groups@, k as nat) + nicks_in(
                                groups@[k as int],
                            ) =~= middle + nicks_in_groups(groups@, (k + 1) as nat));
                            k = k + 1;
                        }
                        assert(middle + nicks_in_groups(groups@, groups@.len()) =~= start
                            + nicks_in(*value));
                    },
                    _ => {
                        assert(middle =~= start + nicks_in(*value));
                    },
                }
            },
            _ => {
                assert(start + nicks_in(*value) =~= start);
            },
        }
    }
}

// ---------------------------------------------------------------------------
// The end of a page of Matrix history
// ---------------------------------------------------------------------------

/// The words of a text between ASCII white space.
pub open spec fn ascii_words(text: Seq<char>) -> Seq<Seq<char>> {
    split_on(spaces_joined(text), ' ').filter(|w: Seq<char>| w.len() > 0)
}

/// The text with every ASCII white space made a space.
pub open spec fn spaces_joined(text: Seq<char>) -> Seq<char> {
    text.map_values(
        |c: char|
            if is_ascii_space(c) {
                ' '
            } else {
                c
            },
    )
}

/// What stands behind a prefix in the last field that begins with it.
pub open spec fn last_field(fields: Seq<Seq<char>>, prefix: Seq<char>) -> Option<Seq<char>> {
    match crate::seqs::last_index(fields, |f: Seq<char>| starts_with(f, prefix)) {
        Some(i) => strip_prefix(fields[i], prefix),
        None => None,
    }
}

pub open spec fn added_in(fields: Seq<Seq<char>>) -> Option<nat> {
    match last_field(fields, "added="@) {
        Some(value) => parse_unsigned(value, usize::MAX as nat),
        None => None,
    }
}

pub open spec fn exhausted_in(fields: Seq<Seq<char>>) -> Option<bool> {
    match last_field(fields, "exhausted="@) {
        Some(value) => if value == "0"@ {
            Some(false)
        } else if value == "1"@ {
            Some(true)
        } else {
            None
        },
        None => None,
    }
}

/// How many lines a page of history added and whether it was the last one.
pub open spec fn page_status(message: Seq<char>) -> Option<(nat, bool)> {
    let words = ascii_words(message);
    if words.len() == 0 || words[0] != "matrix_history_page"@ {
        None
    } else {
        match (added_in(words.skip(1)), exhausted_in(words.skip(1))) {
            (Some(added), Some(exhausted)) => Some((added, exhausted)),
            _ => None,
        }
    }
}

pub fn split_ascii_words(text: &str) -> (words: Vec<String>)
    ensures
        texts(words@) == ascii_words(text@),
{
    let chars = chars_of(text);
    let mut joined: Vec<char> = Vec::new();
    let mut i: usize = 0;
    while i < chars.len()
        invariant
            i <= chars@.len(),
            chars@ == text@,
            joined@ == spaces_joined(text@).take(i as int),
        decreases chars@.len() - i,
    {
        let v: u32 = chars[i] as u32;
        if v == 0x20 || v == 9 || v == 10 || v == 12 || v == 13 {
            joined.push(' ');
        } else {
            joined.push(chars[i]);
        }
        assert(joined@ =~= spaces_joined(text@).take(i + 1));
        i = i + 1;
    }
    assert(spaces_joined(text@).take(i as int) =~= spaces_joined(text@));
    let line = crate::text::text_of(joined.as_slice());
    let parts = str_split(line.as_str(), ' ');
    let ghost all = texts(parts@);
    let ghost p = |w: Seq<char>| w.len() > 0;
    let mut words: Vec<String> = Vec::new();
    let mut k: usize = 0;
    proof {
        reveal(Seq::filter);
        assert(texts(words@) =~= all.take(0).filter(p));
    }
    while k < parts.len()
        invariant
            k <= parts@.len(),
            all == texts(parts@),
            p == (|w: Seq<char>| w.len() > 0),
            texts(words@) == all.take(k as int).filter(p),
        decreases parts@.len() - k,
    {
        let ghost before = words@;
        proof {
            crate::seqs::lemma_filter_take(all, k as int, p);
            assert(all[k as int] == parts@[k as int]@);
        }
        if !parts[k].as_str().is_empty() {
            words.push(parts[k].clone());
            assert(texts(words@) =~= texts(before).push(parts@[k as int]@));
        }
        k = k + 1;
    }
    assert(all.take(k as int) =~= all);
    words
}

fn last_field_of(fields: &Vec<String>, prefix: &str) -> (value: Option<String>)
    requires
        fields@.len() > 0,
    ensures
        opt_text(value) == last_field(texts(fields@).skip(1), prefix@),
{
    let ghost all = texts(fields@).skip(1);
    let ghost p = |f: Seq<char>| starts_with(f, prefix@);
    let mut n: usize = fields.len();
    assert(all.take(n - 1) =~= all);
    while n > 1
        invariant
            1 <= n <= fields@.len(),
            all == texts(fields@).skip(1),
            p == (|f: Seq<char>| starts_with(f, prefix@)),
            crate::seqs::last_index(all, p) == crate::seqs::last_index(all.take(n - 1), p),
        decreases n,
    {
        assert(all.take(n - 1).last() == fields@[n - 1]@);
        assert(all.take(n - 1).drop_last() =~= all.take(n - 2));
        match str_strip_prefix(fields[n - 1].as_str(), prefix) {
            Some(value) => {
                return Some(value);
            },
            None => {},
        }
        n = n - 1;
    }
    None
}

/// How many lines a page of Matrix history added and whether it was the last
/// one, as the line that ends the page says.
pub fn matrix_history_page_status(message: &str) -> (status: Option<(usize, bool)>)
    ensures
        match status {
            Some((added, exhausted)) => page_status(message@) == Some((added as nat, exhausted)),
            None => page_status(message@) is None,
        },
{
    let words = split_ascii_words(message);
    if words.len() == 0 {
        return None;
    }
    assert(texts(words@)[0] == words@[0]@);
    if !same_text(words[0].as_str(), "matrix_history_page") {
        return None;
    }
    let added = match last_field_of(&words, "added=") {
        Some(value) => match parse_u64(value.as_str(), usize::MAX as u64) {
            Some(n) => n as usize,
            None => {
                return None;
            },
        },
        None => {
            return None;
        },
    };
    match last_field_of(&words, "exhausted=") {
        Some(value) => {
            if same_text(value.as_str(), "0") {
                Some((added, false))
            } else if same_text(value.as_str(), "1") {
                Some((added, true))
            } else {
                None
            }
        },
        None => None,
    }
}

} // verus!
