//! Pictures and links in messages.
use vstd::prelude::*;
use crate::content::{caption, first_chars, shortened, shown_text, targets, AvatarImage, LinkView};
use crate::media::{
    avatar_initial, dimensions_allowed, extension, names_image, naming_part, ImageState,
    MediaStateView,
};
use crate::models::MediaView;
use crate::seqs::{first_index, lemma_first_from};
use crate::text::{
    alphanumeric, contains, decimal, find_from, lemma_find_from, lemma_rfind_from, lowercase,
    occurs_at, rfind_from, split_on, starts_with, uppercase,
};

verus! {

/// A picture is shown up to 8192 pixels on a side and 25 million in all.
pub proof fn pictures_are_bounded(width: u32, height: u32)
    ensures
        dimensions_allowed(width, height) <==> width <= 8192 && height <= 8192 && width * height
            <= 25_000_000,
{
}

/// A text without the mark has one part.
pub proof fn lemma_one_part(name: Seq<char>, mark: char)
    requires
        forall|i: int| 0 <= i < name.len() ==> #[trigger] name[i] != mark,
    ensures
        split_on(name, mark) == seq![name],
    decreases name.len(),
{
    if name.len() > 0 {
        let rest = name.skip(1);
        assert forall|i: int| 0 <= i < rest.len() implies #[trigger] rest[i] != mark by {
            assert(rest[i] == name[i + 1]);
        }
        lemma_one_part(rest, mark);
        assert(seq![name[0]] + rest =~= name);
        assert(split_on(name, mark) =~= seq![name]);
    } else {
        assert(split_on(name, mark) =~= seq![name]);
    }
}

/// The parts on both sides of a mark are those of the two sides.
pub proof fn lemma_parts_behind(head: Seq<char>, tail: Seq<char>, mark: char)
    ensures
        split_on(head + seq![mark] + tail, mark) == split_on(head, mark) + split_on(tail, mark),
    decreases head.len(),
{
    let text = head + seq![mark] + tail;
    crate::text::lemma_split_on_len(tail, mark);
    if head.len() == 0 {
        assert(text.skip(1) =~= tail);
        assert(head =~= Seq::<char>::empty());
        assert(split_on(head, mark) =~= seq![Seq::<char>::empty()]);
        assert(split_on(text, mark) =~= split_on(head, mark) + split_on(tail, mark));
    } else {
        let rest = head.skip(1);
        lemma_parts_behind(rest, tail, mark);
        crate::text::lemma_split_on_len(rest, mark);
        assert(text.skip(1) =~= rest + seq![mark] + tail);
        assert(text[0] == head[0]);
        assert(split_on(text, mark) =~= split_on(head, mark) + split_on(tail, mark));
    }
}

/// The extension of a path is what stands behind the last point of its last
/// part.
pub proof fn extensions_stand_behind_the_point(
    folder: Seq<char>,
    stem: Seq<char>,
    ending: Seq<char>,
)
    requires
        stem.len() > 0,
        ending.len() > 0,
        forall|i: int| 0 <= i < stem.len() ==> #[trigger] stem[i] != '/',
        forall|i: int| 0 <= i < ending.len() ==> #[trigger] ending[i] != '/' && ending[i] != '.',
    ensures
        extension(folder + seq!['/'] + (stem + "."@ + ending)) == Some(ending),
{
    reveal_strlit(".");
    reveal_strlit("..");
    let name = stem + "."@ + ending;
    let path = folder + seq!['/'] + name;
    assert forall|i: int| 0 <= i < name.len() implies #[trigger] name[i] != '/' by {
        if i < stem.len() {
            assert(name[i] == stem[i]);
        } else if i > stem.len() {
            assert(name[i] == ending[i - stem.len() - 1]);
        }
    }
    lemma_one_part(name, '/');
    lemma_parts_behind(folder, name, '/');
    let parts = split_on(path, '/');
    assert(parts =~= split_on(folder, '/').push(name));
    let p = |q: Seq<char>| q.len() > 0 && q != "."@;
    crate::seqs::lemma_filter_push(split_on(folder, '/'), name, p);
    assert(name.len() >= 3);
    assert(parts.filter(p).last() == name);
    assert(name != ".."@);
    let at = stem.len() as int;
    assert(name.subrange(at, at + 1) =~= "."@);
    lemma_rfind_from(name, "."@, name.len() - 1);
    assert(occurs_at(name, "."@, at));
    let found = rfind_from(name, "."@, name.len() - 1)->0;
    if found > at {
        assert(name.subrange(found, found + 1)[0] == name[found]);
        assert(name[found] == ending[found - at - 1]);
    }
    assert(name.take(at) =~= stem);
    assert(name.skip(at + 1) =~= ending);
}

/// An address names a picture by the ending of its path.
pub proof fn pictures_are_known_by_their_ending(
    folder: Seq<char>,
    stem: Seq<char>,
    ending: Seq<char>,
)
    requires
        stem.len() > 0,
        ending.len() > 0,
        forall|i: int| 0 <= i < folder.len() ==> #[trigger] folder[i] != '#' && folder[i] != '?',
        forall|i: int|
            0 <= i < stem.len() ==> #[trigger] stem[i] != '/' && stem[i] != '#' && stem[i] != '?',
        forall|i: int|
            0 <= i < ending.len() ==> #[trigger] ending[i] != '/' && ending[i] != '.' && ending[i]
                != '#' && ending[i] != '?',
        lowercase(folder + seq!['/'] + (stem + "."@ + ending)) == folder + seq!['/'] + (stem + "."@
            + ending),
    ensures
        names_image(folder + seq!['/'] + (stem + "."@ + ending)) <==> ending == "png"@ || ending
            == "jpg"@ || ending == "jpeg"@ || ending == "gif"@ || ending == "webp"@ || ending
            == "bmp"@,
{
    reveal_strlit("#");
    reveal_strlit(".");
    let url = folder + seq!['/'] + (stem + "."@ + ending);
    assert forall|i: int| 0 <= i < url.len() implies #[trigger] url[i] != '#' && url[i] != '?' by {
        let f = folder.len() as int;
        let s = stem.len() as int;
        if i < f {
            assert(url[i] == folder[i]);
        } else if i == f {
        } else if i < f + 1 + s {
            assert(url[i] == stem[i - f - 1]);
        } else if i > f + 1 + s {
            assert(url[i] == ending[i - f - s - 2]);
        }
    }
    lemma_find_from(url, "#"@, 0);
    match find_from(url, "#"@, 0) {
        Some(at) => {
            assert(url.subrange(at, at + 1)[0] == url[at]);
        },
        None => {},
    }
    lemma_one_part(url, '?');
    assert(naming_part(url) == url);
    extensions_stand_behind_the_point(folder, stem, ending);
}

/// A message with a picture of its own is shown as that picture, by its name;
/// every other message in its own words.
pub proof fn messages_are_shown_in_their_words(
    message: Seq<char>,
    media: MediaView,
    shown: bool,
)
    ensures
        shown_text(message, None, shown) == message,
        shown_text(message, Some(media), false) == message,
        media.kind == "image"@ ==> shown_text(message, Some(media), true) == "📎 "@ + media.name,
        media.kind != "image"@ ==> shown_text(message, Some(media), true) == message,
{
}

/// A safe link is previewed as what it is, where such previews are wanted.
pub proof fn safe_links_are_previewed(
    list: Seq<LinkView>,
    media: Option<MediaView>,
    images: bool,
    pages: bool,
    i: int,
)
    requires
        0 <= i < list.len(),
        list[i].is_safe,
    ensures
        ({
            let t = targets(list, media, images, pages);
            &&& images && names_image(list[i].url) ==> t.image_urls.contains(list[i].url)
            &&& pages && !names_image(list[i].url) ==> t.preview_urls.contains(list[i].url)
            &&& !images ==> t.image_urls.len() == 0
            &&& !pages ==> t.preview_urls.len() == 0
            &&& media is Some && media->0.kind == "image"@ ==> t.matrix_image_key == Some(
                media->0.mxc_uri,
            )
        }),
{
    lemma_kept(list, i, true);
    lemma_kept(list, i, false);
}

proof fn lemma_kept(list: Seq<LinkView>, i: int, images: bool)
    requires
        0 <= i < list.len(),
        list[i].is_safe,
    ensures
        names_image(list[i].url) == images ==> crate::content::safe_links(list, images).contains(
            list[i].url,
        ),
{
    let p = |l: LinkView| l.is_safe && names_image(l.url) == images;
    let kept = list.filter(p);
    if p(list[i]) {
        list.lemma_filter_contains(p, i);
        let k = choose|k: int| 0 <= k < kept.len() && kept[k] == list[i];
        assert(crate::content::safe_links(list, images)[k] == list[i].url);
    }
}

/// What is folded away unfolds again, and loads only where it is safe and was
/// not loaded.
pub proof fn toggling_shows_and_hides(state: MediaStateView, url: Seq<char>, is_safe: bool)
    ensures
        state.image_toggled(url, is_safe).image_expanded.contains(url)
            == !state.image_expanded.contains(url),
        state.preview_toggled(url, is_safe).preview_expanded.contains(url)
            == !state.preview_expanded.contains(url),
        state.size_toggled(url).image_full_size.contains(url)
            == !state.image_full_size.contains(url),
        !is_safe ==> state.image_toggled(url, is_safe).image_cache == state.image_cache
            && state.preview_toggled(url, is_safe).preview_cache == state.preview_cache,
        is_safe && !state.image_expanded.contains(url) && !state.image_cache.contains_key(url)
            ==> state.image_toggled(url, is_safe).image_cache.contains_key(url)
            && state.image_toggled(url, is_safe).image_cache[url] == ImageState::Loading,
        state.image_cache.contains_key(url) ==> state.image_toggled(url, is_safe).image_cache
            == state.image_cache,
{
}

/// An avatar is shown small where it was made small, whole where only the whole
/// is there, and as a letter otherwise.
pub proof fn avatars_are_shown_as_they_are_there(state: MediaStateView, key: Seq<char>)
    ensures
        state.avatar_cache.contains_key(key) ==> state.avatar_image(Some(key))
            == AvatarImage::Small,
        !state.avatar_cache.contains_key(key) && state.image_cache.contains_key(key)
            && state.image_cache[key] == ImageState::Loaded ==> state.avatar_image(Some(key))
            == AvatarImage::Full,
        !state.avatar_cache.contains_key(key) && (!state.image_cache.contains_key(key)
            || state.image_cache[key] != ImageState::Loaded) ==> state.avatar_image(Some(key))
            == AvatarImage::Letter,
        state.avatar_image(None) == AvatarImage::Letter,
{
}

/// The letter of an avatar is the first letter or digit of the name.
pub proof fn avatars_bear_the_first_letter(name: Seq<char>, i: int)
    requires
        0 <= i < name.len(),
        alphanumeric(name[i]),
        forall|j: int| 0 <= j < i ==> !alphanumeric(#[trigger] name[j]),
    ensures
        avatar_initial(name) == uppercase(name[i]),
{
    let p = |c: char| alphanumeric(c);
    lemma_first_from(name, p, 0);
    assert(p(name[i]));
    let k = first_index(name, p)->0;
    if k < i {
        assert(!alphanumeric(name[k]));
    }
}

/// A long text is cut off behind the given number of characters and says so; a
/// short one stays.
pub proof fn long_texts_are_cut_off(text: Seq<char>, n: int)
    requires
        n >= 0,
    ensures
        text.len() <= n ==> shortened(text, n) == text && first_chars(text, n) == text,
        text.len() > n ==> shortened(text, n) == text.subrange(0, n) + "…"@ && first_chars(text, n)
            == text.subrange(0, n),
{
    if text.len() > n {
        assert(text.take(n) =~= text.subrange(0, n));
    }
}

/// The caption of a picture names its width before its height.
pub proof fn captions_name_the_size(width: nat, height: nat, enlarged: bool)
    ensures
        starts_with(caption(width, height, enlarged), decimal(width) + " × "@ + decimal(height)),
        caption(width, height, true) != caption(width, height, false),
        crate::text::ends_with(caption(width, height, true), "click to shrink"@),
        crate::text::ends_with(caption(width, height, false), "click to enlarge"@),
{
    let head = decimal(width) + " × "@ + decimal(height);
    let all = caption(width, height, enlarged);
    assert(all.subrange(0, head.len() as int) =~= head);
    reveal_strlit("click to shrink");
    reveal_strlit("click to enlarge");
    reveal_strlit("  ·  click to ");
    reveal_strlit("shrink");
    reveal_strlit("enlarge");
    let on = caption(width, height, true);
    let off = caption(width, height, false);
    assert(on.subrange(on.len() - 15, on.len() as int) =~= "click to shrink"@);
    assert(off.subrange(off.len() - 16, off.len() as int) =~= "click to enlarge"@);
    assert(on.len() != off.len());
}

} // verus!
