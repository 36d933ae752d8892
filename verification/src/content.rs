//! What stands in a message: its text, its links and its previews.
use vstd::prelude::*;
use vstd::string::StringExecFns;
use crate::ansi::{ANSISection, SectionView};
use crate::media::{
    is_image_url, is_twemoji_url, names_image, ImageState, MediaState, MediaStateView,
};
use crate::models::{MatrixMedia, MediaView};
use crate::people::{compact_matrix_sender_label, sender_label};
use crate::seqs::{lemma_filter_take, views};
use crate::text::{
    chars_of, contains, decimal, join2, join3, opt_str, opt_text, same_text, text_between, texts, usize_text,
};
use crate::threads::{short_event_id, short_matrix_event_id, ContextView, ThreadReplyContext};

verus! {

// ---------------------------------------------------------------------------
// Links
// ---------------------------------------------------------------------------

/// Whether a message carries an image.
pub open spec fn image_in(media: Option<MediaView>) -> Option<MediaView> {
    match media {
        Some(m) if m.kind == "image"@ => Some(m),
        _ => None,
    }
}

/// The text that a message shows: the name of its image, where images are
/// shown with their messages.
pub open spec fn shown_text(
    message: Seq<char>,
    media: Option<MediaView>,
    show_inline_images: bool,
) -> Seq<char> {
    match image_in(media) {
        Some(m) if show_inline_images => "📎 "@ + m.name,
        _ => message,
    }
}

pub open spec fn media_of(media: Option<&MatrixMedia>) -> Option<MediaView> {
    match media {
        Some(m) => Some(m@),
        None => None,
    }
}

fn is_image(media: &MatrixMedia) -> (yes: bool)
    ensures
        yes == (media@.kind == "image"@),
{
    same_text(media.kind.as_str(), "image")
}

/// The text that a message shows.
pub fn rendered_message(message: &str, media: Option<&MatrixMedia>, show_inline_images: bool) -> (text:
    String)
    ensures
        text@ == shown_text(message@, media_of(media), show_inline_images),
{
    match media {
        Some(m) => if show_inline_images && is_image(m) {
            join2("📎 ", m.name.as_str())
        } else {
            message.to_owned()
        },
        None => message.to_owned(),
    }
}

/// The address of an emoji image.
pub open spec fn is_emoji_address(url: Seq<char>) -> bool {
    contains(url, "cdnjs.cloudflare.com/ajax/libs/twemoji"@)
}

/// A section with a link that is no emoji.
pub open spec fn is_link(s: SectionView) -> bool {
    s.url is Some && !is_emoji_address(s.url->0)
}

/// The links of a text, without those of emoji.
pub open spec fn links(list: Seq<SectionView>) -> Seq<Seq<char>> {
    list.filter(|s: SectionView| is_link(s)).map_values(|s: SectionView| s.url->0)
}

/// The links of a text, without those of emoji.
pub fn message_links(list: &Vec<ANSISection>) -> (urls: Vec<String>)
    ensures
        texts(urls@) == links(views(list@)),
{
    let ghost all = views(list@);
    let ghost p = |s: SectionView| is_link(s);
    let ghost f = |s: SectionView| s.url->0;
    let mut urls: Vec<String> = Vec::new();
    let mut i: usize = 0;
    proof {
        reveal(Seq::filter);
        assert(texts(urls@) =~= all.take(0).filter(p).map_values(f));
    }
    while i < list.len()
        invariant
            i <= list@.len(),
            all == views(list@),
            p == (|s: SectionView| is_link(s)),
            f == (|s: SectionView| s.url->0),
            texts(urls@) == all.take(i as int).filter(p).map_values(f),
        decreases list@.len() - i,
    {
        let ghost before = urls@;
        proof {
            lemma_filter_take(all, i as int, p);
            assert(all[i as int] == list@[i as int]@);
        }
        match &list[i].url {
            Some(url) => {
                if !is_twemoji_url(url.as_str()) {
                    urls.push(url.clone());
                    assert(texts(urls@) =~= texts(before).push(url@));
                    assert(all.take(i as int).filter(p).push(all[i as int]).map_values(f)
                        =~= all.take(i as int).filter(p).map_values(f).push(url@));
                }
            },
            None => {},
        }
        i = i + 1;
    }
    assert(all.take(i as int) =~= all);
    urls
}

/// A link together with the verdict whether it leads to a safe public place.
#[derive(Debug)]
pub struct CheckedLink {
    pub url: String,
    pub is_safe: bool,
}

pub ghost struct LinkView {
    pub url: Seq<char>,
    pub is_safe: bool,
}

impl View for CheckedLink {
    type V = LinkView;

    open spec fn view(&self) -> LinkView {
        LinkView { url: self.url@, is_safe: self.is_safe }
    }
}

/// What a message shows below its text.
#[derive(Debug)]
pub struct MessagePreviewTargets {
    pub image_urls: Vec<String>,
    pub preview_urls: Vec<String>,
    pub matrix_image_key: Option<String>,
}

pub ghost struct PreviewTargetsView {
    pub image_urls: Seq<Seq<char>>,
    pub preview_urls: Seq<Seq<char>>,
    pub matrix_image_key: Option<Seq<char>>,
}

impl View for MessagePreviewTargets {
    type V = PreviewTargetsView;

    open spec fn view(&self) -> PreviewTargetsView {
        PreviewTargetsView {
            image_urls: texts(self.image_urls@),
            preview_urls: texts(self.preview_urls@),
            matrix_image_key: opt_text(self.matrix_image_key),
        }
    }
}

/// The safe links that are images, or those that are not.
pub open spec fn safe_links(list: Seq<LinkView>, images: bool) -> Seq<Seq<char>> {
    list.filter(|l: LinkView| l.is_safe && names_image(l.url) == images).map_values(
        |l: LinkView| l.url,
    )
}

/// What a message shows below its text. A link that is not safe is neither an
/// image nor a preview.
pub open spec fn targets(
    list: Seq<LinkView>,
    media: Option<MediaView>,
    show_inline_images: bool,
    show_link_previews: bool,
) -> PreviewTargetsView {
    PreviewTargetsView {
        image_urls: if show_inline_images {
            safe_links(list, true)
        } else {
            Seq::empty()
        },
        preview_urls: if show_link_previews {
            safe_links(list, false)
        } else {
            Seq::empty()
        },
        matrix_image_key: match image_in(media) {
            Some(m) => Some(m.mxc_uri),
            None => None,
        },
    }
}

fn safe_links_of(list: &Vec<CheckedLink>, images: bool) -> (urls: Vec<String>)
    ensures
        texts(urls@) == safe_links(views(list@), images),
{
    let ghost all = views(list@);
    let ghost p = |l: LinkView| l.is_safe && names_image(l.url) == images;
    let ghost f = |l: LinkView| l.url;
    let mut urls: Vec<String> = Vec::new();
    let mut i: usize = 0;
    proof {
        reveal(Seq::filter);
        assert(texts(urls@) =~= all.take(0).filter(p).map_values(f));
    }
    while i < list.len()
        invariant
            i <= list@.len(),
            all == views(list@),
            p == (|l: LinkView| l.is_safe && names_image(l.url) == images),
            f == (|l: LinkView| l.url),
            texts(urls@) == all.take(i as int).filter(p).map_values(f),
        decreases list@.len() - i,
    {
        let ghost before = urls@;
        proof {
            lemma_filter_take(all, i as int, p);
            assert(all[i as int] == list@[i as int]@);
        }
        if list[i].is_safe && is_image_url(list[i].url.as_str()) == images {
            urls.push(list[i].url.clone());
            assert(texts(urls@) =~= texts(before).push(all[i as int].url));
            assert(all.take(i as int).filter(p).push(all[i as int]).map_values(f) =~= all.take(
                i as int,
            ).filter(p).map_values(f).push(all[i as int].url));
        }
        i = i + 1;
    }
    assert(all.take(i as int) =~= all);
    urls
}

/// What a message shows below its text.
pub fn preview_targets(
    list: &Vec<CheckedLink>,
    media: Option<&MatrixMedia>,
    show_inline_images: bool,
    show_link_previews: bool,
) -> (found: MessagePreviewTargets)
    ensures
        found@ == targets(
            views(list@),
            media_of(media),
            show_inline_images,
            show_link_previews,
        ),
{
    let nothing: Vec<String> = Vec::new();
    let nothing_too: Vec<String> = Vec::new();
    assert(texts(nothing@) =~= Seq::empty());
    assert(texts(nothing_too@) =~= Seq::empty());
    MessagePreviewTargets {
        image_urls: if show_inline_images {
            safe_links_of(list, true)
        } else {
            nothing
        },
        preview_urls: if show_link_previews {
            safe_links_of(list, false)
        } else {
            nothing_too
        },
        matrix_image_key: match media {
            Some(m) => if is_image(m) {
                Some(m.mxc_uri.clone())
            } else {
                None
            },
            None => None,
        },
    }
}

/// Nothing unsafe is ever fetched for a message, and no address is taken for
/// both an image and a page.
pub proof fn only_safe_links_are_previewed(
    list: Seq<LinkView>,
    media: Option<MediaView>,
    images: bool,
    pages: bool,
    i: int,
)
    ensures
        0 <= i < targets(list, media, images, pages).image_urls.len() ==> names_image(
            targets(list, media, images, pages).image_urls[i],
        ) && exists|k: int|
            0 <= k < list.len() && (#[trigger] list[k]).is_safe && list[k].url == targets(
                list,
                media,
                images,
                pages,
            ).image_urls[i],
        0 <= i < targets(list, media, images, pages).preview_urls.len() ==> !names_image(
            targets(list, media, images, pages).preview_urls[i],
        ) && exists|k: int|
            0 <= k < list.len() && (#[trigger] list[k]).is_safe && list[k].url == targets(
                list,
                media,
                images,
                pages,
            ).preview_urls[i],
{
    let t = targets(list, media, images, pages);
    if 0 <= i < t.image_urls.len() {
        lemma_safe_link(list, true, i);
    }
    if 0 <= i < t.preview_urls.len() {
        lemma_safe_link(list, false, i);
    }
}

proof fn lemma_safe_link(list: Seq<LinkView>, images: bool, i: int)
    requires
        0 <= i < safe_links(list, images).len(),
    ensures
        names_image(safe_links(list, images)[i]) == images,
        exists|k: int|
            0 <= k < list.len() && (#[trigger] list[k]).is_safe && list[k].url == safe_links(
                list,
                images,
            )[i],
{
    let p = |l: LinkView| l.is_safe && names_image(l.url) == images;
    let kept = list.filter(p);
    list.lemma_filter_pred(p, i);
    list.lemma_filter_contains_rev(p, kept[i]);
    let k = choose|k: int| 0 <= k < list.len() && list[k] == kept[i];
    assert(list[k].is_safe);
}

// ---------------------------------------------------------------------------
// Previews
// ---------------------------------------------------------------------------

impl MediaStateView {
    /// The state with an image shown or put away.
    pub open spec fn image_toggled(self, url: Seq<char>, is_safe: bool) -> MediaStateView {
        if self.image_expanded.contains(url) {
            MediaStateView {
                image_expanded: self.image_expanded.remove(url),
                image_full_size: self.image_full_size.remove(url),
                ..self
            }
        } else {
            MediaStateView {
                image_expanded: self.image_expanded.insert(url),
                image_cache: if is_safe && !self.image_cache.contains_key(url) {
                    self.image_cache.insert(url, ImageState::Loading)
                } else {
                    self.image_cache
                },
                ..self
            }
        }
    }

    /// The state with a preview shown or put away.
    pub open spec fn preview_toggled(self, url: Seq<char>, is_safe: bool) -> MediaStateView {
        if self.preview_expanded.contains(url) {
            MediaStateView { preview_expanded: self.preview_expanded.remove(url), ..self }
        } else {
            MediaStateView {
                preview_expanded: self.preview_expanded.insert(url),
                preview_cache: if is_safe && !self.preview_cache.contains_key(url) {
                    self.preview_cache.insert(url, crate::media::PreviewView::Loading)
                } else {
                    self.preview_cache
                },
                ..self
            }
        }
    }

    /// The state with an image enlarged or shrunk.
    pub open spec fn size_toggled(self, key: Seq<char>) -> MediaStateView {
        MediaStateView {
            image_full_size: if self.image_full_size.contains(key) {
                self.image_full_size.remove(key)
            } else {
                self.image_full_size.insert(key)
            },
            ..self
        }
    }

    /// The images that are shown below a message.
    pub open spec fn shown_images(self, t: PreviewTargetsView, show_inline_images: bool) -> Seq<
        Seq<char>,
    > {
        if show_inline_images {
            let linked = t.image_urls.filter(|u: Seq<char>| self.image_expanded.contains(u));
            match t.matrix_image_key {
                Some(key) => linked.push(key),
                None => linked,
            }
        } else {
            Seq::empty()
        }
    }

    /// The pages that are shown below a message.
    pub open spec fn shown_pages(self, t: PreviewTargetsView, show_link_previews: bool) -> Seq<
        Seq<char>,
    > {
        if show_link_previews {
            t.preview_urls.filter(|u: Seq<char>| self.preview_expanded.contains(u))
        } else {
            Seq::empty()
        }
    }
}

fn expanded_of(urls: &Vec<String>, expanded: &crate::collections::TextSet) -> (shown: Vec<String>)
    ensures
        texts(shown@) == texts(urls@).filter(|u: Seq<char>| expanded@.contains(u)),
{
    let ghost all = texts(urls@);
    let ghost p = |u: Seq<char>| expanded@.contains(u);
    let mut shown: Vec<String> = Vec::new();
    let mut i: usize = 0;
    proof {
        reveal(Seq::filter);
        assert(texts(shown@) =~= all.take(0).filter(p));
    }
    while i < urls.len()
        invariant
            i <= urls@.len(),
            all == texts(urls@),
            p == (|u: Seq<char>| expanded@.contains(u)),
            texts(shown@) == all.take(i as int).filter(p),
        decreases urls@.len() - i,
    {
        let ghost before = shown@;
        proof {
            lemma_filter_take(all, i as int, p);
            assert(all[i as int] == urls@[i as int]@);
        }
        if expanded.contains(urls[i].as_str()) {
            shown.push(urls[i].clone());
            assert(texts(shown@) =~= texts(before).push(all[i as int]));
        }
        i = i + 1;
    }
    assert(all.take(i as int) =~= all);
    shown
}

impl MediaState {
    /// Shows an image or puts it away, and says whether it has to be fetched.
    pub fn toggle_image(&mut self, url: &str, is_safe: bool) -> (begun: bool)
        ensures
            final(self)@ == old(self)@.image_toggled(url@, is_safe),
            begun == (is_safe && !old(self)@.image_expanded.contains(url@) && !old(
                self,
            )@.image_cache.contains_key(url@)),
    {
        if self.image_expanded.contains(url) {
            self.image_expanded.remove(url);
            self.image_full_size.remove(url);
            false
        } else {
            self.ensure_image_loading(url, is_safe)
        }
    }

    /// Shows a preview or puts it away, and says whether it has to be fetched.
    pub fn toggle_preview(&mut self, url: &str, is_safe: bool) -> (begun: bool)
        ensures
            final(self)@ == old(self)@.preview_toggled(url@, is_safe),
            begun == (is_safe && !old(self)@.preview_expanded.contains(url@) && !old(
                self,
            )@.preview_cache.contains_key(url@)),
    {
        if self.preview_expanded.contains(url) {
            self.preview_expanded.remove(url);
            false
        } else {
            self.preview_expanded.insert(url.to_owned());
            self.ensure_link_preview_loading(url, is_safe)
        }
    }

    /// Enlarges an image or shrinks it again.
    pub fn toggle_full_size(&mut self, key: &str)
        ensures
            final(self)@ == old(self)@.size_toggled(key@),
    {
        if self.image_full_size.contains(key) {
            self.image_full_size.remove(key);
        } else {
            self.image_full_size.insert(key.to_owned());
        }
    }

    /// The images that are shown below a message.
    pub fn shown_image_keys(&self, found: &MessagePreviewTargets, show_inline_images: bool) -> (keys:
        Vec<String>)
        ensures
            texts(keys@) == self@.shown_images(found@, show_inline_images),
    {
        if !show_inline_images {
            let keys: Vec<String> = Vec::new();
            assert(texts(keys@) =~= Seq::empty());
            return keys;
        }
        let mut keys = expanded_of(&found.image_urls, &self.image_expanded);
        match &found.matrix_image_key {
            Some(key) => {
                let ghost before = keys@;
                keys.push(key.clone());
                assert(texts(keys@) =~= texts(before).push(key@));
            },
            None => {},
        }
        keys
    }

    /// The pages that are shown below a message.
    pub fn shown_page_urls(&self, found: &MessagePreviewTargets, show_link_previews: bool) -> (urls:
        Vec<String>)
        ensures
            texts(urls@) == self@.shown_pages(found@, show_link_previews),
    {
        if !show_link_previews {
            let urls: Vec<String> = Vec::new();
            assert(texts(urls@) =~= Seq::empty());
            return urls;
        }
        expanded_of(&found.preview_urls, &self.preview_expanded)
    }
}

impl MediaStateView {
    /// The state after the images of some addresses were asked for.
    pub open spec fn images_begun(self, urls: Seq<Seq<char>>) -> MediaStateView
        decreases urls.len(),
    {
        if urls.len() == 0 {
            self
        } else {
            let before = self.images_begun(urls.drop_last());
            if before.image_cache.contains_key(urls.last()) {
                before
            } else {
                MediaStateView {
                    image_expanded: before.image_expanded.insert(urls.last()),
                    image_cache: before.image_cache.insert(urls.last(), ImageState::Loading),
                    ..before
                }
            }
        }
    }

    /// The addresses among some that are not at hand yet, each once.
    pub open spec fn images_missing(self, urls: Seq<Seq<char>>) -> Seq<Seq<char>>
        decreases urls.len(),
    {
        if urls.len() == 0 {
            Seq::empty()
        } else {
            let before = self.images_missing(urls.drop_last());
            if self.images_begun(urls.drop_last()).image_cache.contains_key(urls.last()) {
                before
            } else {
                before.push(urls.last())
            }
        }
    }

    /// Whether the image of a message has to be asked of the relay.
    pub open spec fn wants_matrix(
        self,
        t: PreviewTargetsView,
        in_buffer: bool,
        show_inline_images: bool,
    ) -> bool {
        show_inline_images && in_buffer && t.matrix_image_key is Some
            && !self.image_cache.contains_key(t.matrix_image_key->0)
    }

    /// The state after a message was shown.
    pub open spec fn message_shown(
        self,
        t: PreviewTargetsView,
        in_buffer: bool,
        show_inline_images: bool,
    ) -> MediaStateView {
        (if self.wants_matrix(t, in_buffer, show_inline_images) {
            self.with_matrix_load(t.matrix_image_key->0)
        } else {
            self
        }).images_begun(t.image_urls)
    }
}

/// What is to be loaded for a message.
#[derive(Debug)]
pub struct MessageLoads {
    /// Whether the relay is asked for the image of the message.
    pub download: bool,
    /// The addresses to be fetched.
    pub fetch: Vec<String>,
}

impl MediaState {
    /// Notes what a message shows and says what has to be loaded for it.
    /// `in_buffer` says that the message stands in a buffer that can be asked.
    pub fn render_message_content(
        &mut self,
        found: &MessagePreviewTargets,
        in_buffer: bool,
        show_inline_images: bool,
    ) -> (loads: MessageLoads)
        ensures
            final(self)@ == old(self)@.message_shown(found@, in_buffer, show_inline_images),
            loads.download == (old(self)@.wants_matrix(found@, in_buffer, show_inline_images)
                && old(self)@.loads_matrix(found@.matrix_image_key->0)),
            texts(loads.fetch@) == (if old(self)@.wants_matrix(found@, in_buffer, show_inline_images) {
                old(self)@.with_matrix_load(found@.matrix_image_key->0)
            } else {
                old(self)@
            }).images_missing(found@.image_urls),
    {
        let mut download = false;
        match &found.matrix_image_key {
            Some(key) => {
                if show_inline_images && in_buffer && !self.image_cache.contains_key(key.as_str()) {
                    download = self.ensure_matrix_media_loading(key.as_str());
                }
            },
            None => {},
        }
        let ghost begun = self@;
        let ghost urls = texts(found.image_urls@);
        let mut fetch: Vec<String> = Vec::new();
        let mut i: usize = 0;
        assert(texts(fetch@) =~= begun.images_missing(urls.take(0)));
        while i < found.image_urls.len()
            invariant
                i <= found.image_urls@.len(),
                urls == texts(found.image_urls@),
                self@ == begun.images_begun(urls.take(i as int)),
                texts(fetch@) == begun.images_missing(urls.take(i as int)),
            decreases found.image_urls@.len() - i,
        {
            let ghost before = fetch@;
            let url = found.image_urls[i].as_str();
            proof {
                assert(urls.take(i + 1).drop_last() =~= urls.take(i as int));
                assert(urls.take(i + 1).last() == url@);
            }
            if !self.image_cache.contains_key(url) {
                self.ensure_image_loading(url, true);
                fetch.push(url.to_owned());
                assert(texts(fetch@) =~= texts(before).push(url@));
            }
            i = i + 1;
        }
        assert(urls.take(i as int) =~= urls);
        MessageLoads { download, fetch }
    }
}

/// Showing a message again loads nothing new.
pub proof fn showing_again_loads_nothing(state: MediaStateView, urls: Seq<Seq<char>>)
    ensures
        state.images_begun(urls).images_missing(urls).len() == 0,
{
    let after = state.images_begun(urls);
    lemma_begun_covers(state, urls);
    lemma_covered_misses_nothing(after, urls);
}

proof fn lemma_begun_covers(state: MediaStateView, urls: Seq<Seq<char>>)
    ensures
        forall|i: int|
            0 <= i < urls.len() ==> state.images_begun(urls).image_cache.contains_key(
                #[trigger] urls[i],
            ),
    decreases urls.len(),
{
    if urls.len() > 0 {
        lemma_begun_covers(state, urls.drop_last());
        assert forall|i: int| 0 <= i < urls.len() implies state.images_begun(
            urls,
        ).image_cache.contains_key(#[trigger] urls[i]) by {
            if i < urls.len() - 1 {
                assert(urls.drop_last()[i] == urls[i]);
            }
        }
    }
}

proof fn lemma_covered_misses_nothing(state: MediaStateView, urls: Seq<Seq<char>>)
    requires
        forall|i: int| 0 <= i < urls.len() ==> state.image_cache.contains_key(#[trigger] urls[i]),
    ensures
        state.images_missing(urls).len() == 0,
        state.images_begun(urls) == state,
    decreases urls.len(),
{
    if urls.len() > 0 {
        assert forall|i: int| 0 <= i < urls.drop_last().len() implies state.image_cache.contains_key(
            #[trigger] urls.drop_last()[i],
        ) by {
            assert(urls.drop_last()[i] == urls[i]);
        }
        lemma_covered_misses_nothing(state, urls.drop_last());
        assert(urls[urls.len() - 1] == urls.last());
    }
}

pub open spec fn caption(width: nat, height: nat, is_enlarged: bool) -> Seq<char> {
    decimal(width) + " × "@ + decimal(height) + "  ·  click to "@ + (if is_enlarged {
        "shrink"@
    } else {
        "enlarge"@
    })
}

/// What stands below an image.
pub fn image_caption(width: usize, height: usize, is_enlarged: bool) -> (text: String)
    ensures
        text@ == caption(width as nat, height as nat, is_enlarged),
{
    let w = usize_text(width);
    let h = usize_text(height);
    let size = join3(w.as_str(), " × ", h.as_str());
    join3(size.as_str(), "  ·  click to ", if is_enlarged { "shrink" } else { "enlarge" })
}

// ---------------------------------------------------------------------------
// Avatars
// ---------------------------------------------------------------------------

/// What an avatar shows.
#[derive(Debug, Clone, Copy, PartialEq, Eq, Structural)]
pub enum AvatarImage {
    Small,
    Full,
    /// A letter on a coloured ground.
    Letter,
}

impl MediaStateView {
    /// What an avatar shows: the small image, or else the whole one.
    pub open spec fn avatar_image(self, key: Option<Seq<char>>) -> AvatarImage {
        match key {
            Some(key) => if self.avatar_cache.contains_key(key) {
                AvatarImage::Small
            } else if self.image_cache.contains_key(key) && self.image_cache[key] is Loaded {
                AvatarImage::Full
            } else {
                AvatarImage::Letter
            },
            None => AvatarImage::Letter,
        }
    }

    /// The state after an avatar was shown.
    pub open spec fn avatar_shown(self, key: Seq<char>, is_visible: bool) -> MediaStateView {
        let noted = MediaStateView {
            avatar_image_keys: self.avatar_image_keys.insert(key),
            ..self
        };
        if is_visible && !self.image_cache.contains_key(key) {
            noted.with_matrix_load(key)
        } else {
            noted
        }
    }
}

impl MediaState {
    /// What an avatar shows.
    pub fn avatar_image(&self, key: Option<&str>) -> (image: AvatarImage)
        ensures
            image == self@.avatar_image(opt_str(key)),
    {
        match key {
            Some(key) => {
                if self.avatar_cache.contains_key(key) {
                    return AvatarImage::Small;
                }
                match self.image_cache.get(key) {
                    Some(ImageState::Loaded) => AvatarImage::Full,
                    _ => AvatarImage::Letter,
                }
            },
            None => AvatarImage::Letter,
        }
    }

    /// Notes an avatar and says whether it has to be downloaded.
    pub fn show_avatar(&mut self, key: &str, is_visible: bool) -> (begun: bool)
        ensures
            final(self)@ == old(self)@.avatar_shown(key@, is_visible),
            begun == (is_visible && old(self)@.loads_matrix(key@)),
    {
        self.avatar_image_keys.insert(key.to_owned());
        if is_visible && !self.image_cache.contains_key(key) {
            self.ensure_matrix_media_loading(key)
        } else {
            false
        }
    }
}

// ---------------------------------------------------------------------------
// Short texts
// ---------------------------------------------------------------------------

/// How much of an answered message the composer shows.
pub const REPLY_PREVIEW_CHARS: usize = 120;

/// How much of a description or of a message to be deleted is shown.
pub const PREVIEW_CHARS: usize = 240;

pub open spec fn first_chars(text: Seq<char>, n: int) -> Seq<char> {
    if text.len() > n {
        text.take(n)
    } else {
        text
    }
}

pub open spec fn shortened(text: Seq<char>, n: int) -> Seq<char> {
    if text.len() > n {
        text.take(n) + "…"@
    } else {
        text
    }
}

/// The first characters of a text.
pub fn first_chars_of(text: &str, n: usize) -> (head: String)
    ensures
        head@ == first_chars(text@, n as int),
{
    let chars = chars_of(text);
    if chars.len() > n {
        let head = text_between(chars.as_slice(), 0, n);
        assert(head@ =~= text@.take(n as int));
        head
    } else {
        text.to_owned()
    }
}

/// A text that is cut with an ellipsis where it is too long.
pub fn shorten(text: &str, n: usize) -> (short: String)
    ensures
        short@ == shortened(text@, n as int),
{
    let chars = chars_of(text);
    if chars.len() > n {
        let head = text_between(chars.as_slice(), 0, n);
        assert(head@ =~= text@.take(n as int));
        join2(head.as_str(), "…")
    } else {
        text.to_owned()
    }
}

/// Whom a card says that a message answers.
pub open spec fn card_title(reply: ContextView) -> Seq<char> {
    match reply.sender {
        Some(sender) => sender_label(sender),
        None => match reply.target_event_id {
            Some(event_id) => "Reply to "@ + short_event_id(event_id),
            None => "Reply"@,
        },
    }
}

/// Whom a card says that a message answers.
pub fn reply_card_title(reply: &ThreadReplyContext) -> (title: String)
    ensures
        title@ == card_title(reply@),
{
    match &reply.sender {
        Some(sender) => compact_matrix_sender_label(sender.as_str()),
        None => match &reply.target_event_id {
            Some(event_id) => {
                let short = short_matrix_event_id(event_id.as_str());
                join2("Reply to ", short.as_str())
            },
            None => "Reply".to_owned(),
        },
    }
}

/// What the pointer reveals about the title of a card: the whole sender where
/// the title is shorter, or else the event.
pub open spec fn card_hint(reply: ContextView) -> Option<Seq<char>> {
    match reply.sender {
        Some(sender) => if sender != sender_label(sender) {
            Some(sender)
        } else {
            None
        },
        None => match reply.target_event_id {
            Some(event_id) => Some("Reply target: "@ + event_id),
            None => None,
        },
    }
}

/// What the pointer reveals about the title of a card.
pub fn reply_card_hint(reply: &ThreadReplyContext) -> (hint: Option<String>)
    ensures
        opt_text(hint) == card_hint(reply@),
{
    match &reply.sender {
        Some(sender) => {
            let label = compact_matrix_sender_label(sender.as_str());
            if same_text(sender.as_str(), label.as_str()) {
                None
            } else {
                Some(sender.clone())
            }
        },
        None => match &reply.target_event_id {
            Some(event_id) => Some(join2("Reply target: ", event_id.as_str())),
            None => None,
        },
    }
}

/// A message to be copied together with its sender.
pub fn with_sender(sender: &str, message: &str) -> (text: String)
    ensures
        text@ == "<"@ + sender@ + "> "@ + message@,
{
    let head = join3("<", sender, "> ");
    join2(head.as_str(), message)
}

} // verus!
