use weechatrs::collections::{TextMap, TextSet};
use weechatrs::content::{
    first_chars_of, image_caption, message_links, preview_targets, rendered_message, shorten,
    with_sender, AvatarImage, CheckedLink,
};
use weechatrs::ansi::ANSIParser;
use weechatrs::history::{
    history_snapshot_is_exhausted, matrix_history_snapshot_count, next_history_request_count,
    should_auto_request_history,
};
use weechatrs::keys::{
    composer_step, open_url_once, paste_shortcut_pressed, paste_step, refreshes_mentions,
    selected_char_range, should_probe_clipboard_image, ComposerKeys, ComposerStep, InputEvent,
    PasteKey, PasteStep,
};
use weechatrs::media::{
    avatar_pixels, avatar_square, avatar_thumbnail, begin_matrix_media_load, cap_map, clipboard_png,
    fetch_refusal, fetched_chunk, fine_avatar_pixels, hash_nick, inline_image_dimensions_allowed, inline_picture,
    is_image_url,
    is_matrix_media_status_line, is_twemoji_url, matrix_image_bytes_complete,
    matrix_media_cache_name, matrix_media_download_command, quote_weechat_argument,
    sidebar_avatar_color_index, sidebar_avatar_fallback_color, sidebar_avatar_initial,
    validate_inline_image_dimensions, ImageState, MediaState, MediaStep, MediaWait, Picture,
    PreviewState, IMAGE_CACHE_MAX, PREVIEW_CACHE_MAX,
};
use weechatrs::models::MatrixMedia;
use weechatrs::preview::{link_preview, LinkPreview};
use weechatrs::state::{INITIAL_LINES, LOAD_MORE_LINES, MAX_STORED_LINES};

fn solid_png(width: u32, height: u32) -> Vec<u8> {
    let image = image::DynamicImage::ImageRgba8(image::RgbaImage::from_pixel(
        width,
        height,
        image::Rgba([12, 34, 56, 255]),
    ));
    let mut bytes = Vec::new();
    image
        .write_to(
            &mut std::io::Cursor::new(&mut bytes),
            image::ImageFormat::Png,
        )
        .expect("encode fixture");
    bytes
}

fn eight_bits(width: u32, height: u32, rgba: Vec<u8>) -> Picture {
    Picture {
        width,
        height,
        rgba,
        fine: None,
    }
}

#[test]
fn avatar_thumbnail_center_crops_then_lanczos_prefilters() {
    let mut source = image::RgbaImage::new(4, 2);
    for y in 0..2 {
        source.put_pixel(0, y, image::Rgba([255, 0, 0, 255]));
        source.put_pixel(1, y, image::Rgba([0, 255, 0, 255]));
        source.put_pixel(2, y, image::Rgba([0, 255, 0, 255]));
        source.put_pixel(3, y, image::Rgba([0, 0, 255, 255]));
    }
    let pixels = avatar_thumbnail(eight_bits(4, 2, source.into_raw()), 64);
    let thumbnail = image::RgbaImage::from_raw(64, 64, pixels).expect("64 by 64 pixels");
    assert_eq!(thumbnail.dimensions(), (64, 64));
    assert!(thumbnail
        .pixels()
        .all(|pixel| *pixel == image::Rgba([0, 255, 0, 255])));
    assert_eq!(avatar_square(4, 2), (1, 0, 2));
    assert_eq!(avatar_square(2, 5), (0, 1, 2));
}

#[test]
fn the_middle_square_is_cut_out_exactly() {
    let rgba: Vec<u8> = (0..4 * 3 * 2).collect();
    // Three pixels wide, two high: the first two columns.
    let expected: Vec<u8> = vec![0, 1, 2, 3, 4, 5, 6, 7, 12, 13, 14, 15, 16, 17, 18, 19];
    assert_eq!(avatar_pixels(3, 2, rgba.clone()), expected);
    assert_eq!(avatar_thumbnail(eight_bits(3, 2, rgba), 2), expected);
}

#[test]
fn inline_decode_rejects_excessive_dimensions_and_pixel_counts() {
    assert!(inline_image_dimensions_allowed(4096, 4096));
    assert!(!inline_image_dimensions_allowed(8193, 1));
    assert!(!inline_image_dimensions_allowed(6000, 6000));
}

#[test]
fn dimensions_are_read_from_the_file() {
    assert_eq!(validate_inline_image_dimensions(&solid_png(3, 5)), Ok(()));
    assert!(validate_inline_image_dimensions(&solid_png(8193, 1)).is_err());
    assert!(validate_inline_image_dimensions(b"no image").is_err());
}

#[test]
fn stalled_partial_matrix_image_is_not_accepted_as_complete() {
    let complete = solid_png(8, 8);
    let partial = &complete[..complete.len() / 2];

    assert!(matrix_image_bytes_complete(&complete));
    assert!(!matrix_image_bytes_complete(partial));
}

#[test]
fn clipboard_images_become_png_files() {
    let rgba = vec![7u8; 2 * 3 * 4];
    let png = clipboard_png(2, 3, rgba.clone()).expect("encodes");
    let decoded = image::load_from_memory(&png).expect("decodes").to_rgba8();
    assert_eq!(decoded.dimensions(), (2, 3));
    assert_eq!(decoded.into_raw(), rgba);
    assert_eq!(
        clipboard_png(2, 3, vec![0; 5]),
        Err("Clipboard returned an invalid RGBA image".to_owned())
    );
    assert_eq!(
        clipboard_png(1, 1, vec![0; 5]),
        Err("Clipboard returned an invalid RGBA image".to_owned())
    );
    assert_eq!(
        clipboard_png(u32::MAX, u32::MAX, vec![0; 5]),
        Err("Clipboard returned an invalid RGBA image".to_owned())
    );
}

#[test]
fn fetches_are_bounded() {
    assert_eq!(fetch_refusal(None), None);
    assert_eq!(fetch_refusal(Some(0)), None);
    assert!(fetch_refusal(Some(u64::MAX)).is_some());
    let mut bytes = vec![1u8, 2];
    let mut chunk = vec![3u8, 4];
    assert_eq!(fetched_chunk(&mut bytes, &mut chunk), Ok(()));
    assert_eq!(bytes, vec![1, 2, 3, 4]);
}

#[test]
fn one_pointer_click_cannot_be_retargeted_by_a_later_link() {
    let mut open_url: Option<String> = None;
    open_url_once(&mut open_url, "https://trac.osgeo.org/postgis/ticket/5796");
    open_url_once(&mut open_url, "https://trac.osgeo.org/postgis/ticket/2362");

    assert_eq!(
        open_url.as_deref(),
        Some("https://trac.osgeo.org/postgis/ticket/5796")
    );
}

#[test]
fn matrix_media_cache_name_is_path_safe() {
    assert_eq!(
        matrix_media_cache_name("mxc://matrix.org/some-media-id"),
        "bXhjOi8vbWF0cml4Lm9yZy9zb21lLW1lZGlhLWlk"
    );
}

#[test]
fn matrix_media_download_path_is_one_weechat_argument() {
    assert_eq!(
        quote_weechat_argument("/tmp/a path/\"image\""),
        "\"/tmp/a path/\\\"image\\\"\""
    );
}

#[test]
fn download_command_names_the_media_and_the_quoted_path() {
    assert_eq!(
        matrix_media_download_command("mxc://a/b", "/tmp/x y"),
        "/matrix media download mxc://a/b \"/tmp/x y\""
    );
}

#[test]
fn hides_only_weechatrs_matrix_media_status_lines() {
    assert!(is_matrix_media_status_line(
        "matrix: Downloading media to /home/user/.cache/weechatrs/matrix-media/key"
    ));
    assert!(!is_matrix_media_status_line(
        "matrix: Successfully downloaded media to /home/user/downloads/image.png"
    ));
    assert!(is_matrix_media_status_line(
        "matrix: Error writing media to /home/user/.cache/weechatrs/matrix-media/key: Os {\n    code: 17,\n    kind: AlreadyExists,\n    message: \"Файл існує\",\n}"
    ));
    assert!(!is_matrix_media_status_line(
        "matrix: Error writing media to /home/user/downloads/image.png: AlreadyExists"
    ));
    assert!(is_matrix_media_status_line(
        "matrix: Error downloading media Http(Request { request::Error { kind: Decode, source: hyper::Error(Body, Custom { kind: UnexpectedEof, error: IncompleteBody }) } })"
    ));
    assert!(is_matrix_media_status_line(
        r"matrix: Error creating media directory C:\Users\user\AppData\Local\weechatrs\matrix-media\key: AlreadyExists"
    ));
    assert!(!is_matrix_media_status_line(
        "matrix: an ordinary room message mentioning Error downloading media"
    ));
}

#[test]
fn matrix_media_request_survives_image_cache_eviction() {
    let key = "mxc://matrix.org/avatar";
    let mut image_cache: TextMap<ImageState> = TextMap::new();
    let mut pending = TextSet::new();

    assert!(begin_matrix_media_load(&mut image_cache, &mut pending, key));
    assert!(matches!(image_cache.get(key), Some(ImageState::Loading)));

    // The bounded texture cache may evict a loading placeholder. The
    // independent request set must still prevent a second relay download
    // from targeting the same create-new cache path.
    image_cache.remove(key);
    assert!(!begin_matrix_media_load(&mut image_cache, &mut pending, key));

    pending.remove(key);
    assert!(begin_matrix_media_load(&mut image_cache, &mut pending, key));
}

#[test]
fn one_matrix_page_reveals_all_history_already_retained_by_weechat() {
    assert_eq!(matrix_history_snapshot_count(), MAX_STORED_LINES);
}

#[test]
fn expanding_weechat_snapshot_requests_one_older_page() {
    assert_eq!(
        next_history_request_count(INITIAL_LINES, INITIAL_LINES),
        Some(INITIAL_LINES + LOAD_MORE_LINES)
    );
    assert_eq!(
        next_history_request_count(INITIAL_LINES + 50, INITIAL_LINES + LOAD_MORE_LINES),
        Some(INITIAL_LINES + LOAD_MORE_LINES * 2)
    );
}

#[test]
fn history_snapshot_stops_on_short_page_or_retention_limit() {
    assert!(!history_snapshot_is_exhausted(600, 600));
    assert!(history_snapshot_is_exhausted(450, 600));
    assert!(history_snapshot_is_exhausted(MAX_STORED_LINES, MAX_STORED_LINES));
    assert_eq!(
        next_history_request_count(MAX_STORED_LINES, MAX_STORED_LINES),
        None
    );
}

#[test]
fn busy_initial_page_does_not_retry_until_rearmed() {
    assert!(should_auto_request_history(20, false, false));
    assert!(!should_auto_request_history(20, true, false));
    assert!(should_auto_request_history(20, true, true));
}

#[test]
fn empty_initial_page_does_not_auto_load_history() {
    assert!(!should_auto_request_history(0, false, false));
    assert!(!should_auto_request_history(0, true, true));
}

#[test]
fn sidebar_avatar_fallback_ignores_matrix_name_sigils() {
    assert_eq!(sidebar_avatar_initial("#PostGIS"), "P");
    assert_eq!(sidebar_avatar_initial("+OSGeo Open Space"), "O");
    assert_eq!(sidebar_avatar_initial("!!!"), "?");
}

#[test]
fn fallback_colours_follow_the_name() {
    // 'a' is 97, and 97 % 8 is 1.
    assert_eq!(sidebar_avatar_color_index("a"), 1);
    assert_eq!(sidebar_avatar_fallback_color("a"), (111, 83, 189));
    assert_eq!(sidebar_avatar_fallback_color(""), (83, 121, 189));
    // 97 % 15 + 1 is 8; (97 * 31 + 98) % 15 + 1 is 1.
    assert_eq!(hash_nick("a"), 8);
    assert_eq!(hash_nick("ab"), 1);
    assert_eq!(hash_nick(""), 1);
}

#[test]
fn clipboard_image_probe_does_not_compete_with_text_paste() {
    let paste_key = || InputEvent::Key {
        key: PasteKey::V,
        pressed: true,
        command: true,
        ctrl: true,
    };

    assert!(paste_shortcut_pressed(&[paste_key()]));
    assert!(should_probe_clipboard_image(&[paste_key()]));
    assert!(!should_probe_clipboard_image(&[
        InputEvent::Paste("hello".to_owned()),
        paste_key(),
    ]));
    assert!(paste_shortcut_pressed(&[InputEvent::Paste(String::new())]));
    assert!(should_probe_clipboard_image(&[InputEvent::Paste(
        String::new(),
    )]));
    assert!(!should_probe_clipboard_image(&[]));
}

#[test]
fn only_paste_keys_paste() {
    let key = |key: PasteKey, pressed: bool, ctrl: bool| InputEvent::Key {
        key,
        pressed,
        command: false,
        ctrl,
    };
    assert!(!paste_shortcut_pressed(&[InputEvent::Other]));
    assert!(!paste_shortcut_pressed(&[key(PasteKey::V, true, false)]));
    assert!(!paste_shortcut_pressed(&[key(PasteKey::V, false, true)]));
    assert!(!paste_shortcut_pressed(&[key(PasteKey::Other, true, true)]));
    assert!(paste_shortcut_pressed(&[key(PasteKey::Paste, true, false)]));
}

#[test]
fn pastes_are_told_apart() {
    assert_eq!(paste_step(false, true, true, false), PasteStep::Text);
    assert_eq!(paste_step(false, true, true, true), PasteStep::Image);
    assert_eq!(paste_step(true, false, false, false), PasteStep::Image);
    assert_eq!(paste_step(false, false, true, true), PasteStep::Nothing);
}

#[test]
fn open_lists_have_the_keys() {
    let keys = |tab: bool, enter: bool, up: bool, down: bool, escape: bool| ComposerKeys {
        tab,
        enter,
        up,
        down,
        escape,
    };
    let up = keys(false, false, true, false, false);
    assert_eq!(composer_step(true, true, up), ComposerStep::PreviousCommand);
    assert_eq!(composer_step(false, true, up), ComposerStep::PreviousMention);
    assert_eq!(composer_step(false, false, up), ComposerStep::OlderMessage);
    let enter = keys(false, true, false, false, false);
    assert_eq!(composer_step(true, false, enter), ComposerStep::AcceptCommand);
    assert_eq!(composer_step(false, true, enter), ComposerStep::AcceptMention);
    assert_eq!(composer_step(false, false, enter), ComposerStep::Nothing);
    assert!(!refreshes_mentions(false, true, enter));
    assert!(refreshes_mentions(false, false, enter));
    let tab = keys(true, false, false, false, false);
    assert_eq!(composer_step(false, false, tab), ComposerStep::Complete);
    let escape = keys(false, false, false, false, true);
    assert_eq!(composer_step(true, false, escape), ComposerStep::CancelCommand);
    assert_eq!(composer_step(false, true, escape), ComposerStep::CancelMention);
}

#[test]
fn selections_stay_within_the_text() {
    assert_eq!(selected_char_range(None, "дом"), (3, 3));
    assert_eq!(selected_char_range(Some((2, 1)), "дом"), (1, 2));
    assert_eq!(selected_char_range(Some((1, 9)), "дом"), (1, 3));
}

#[test]
fn a_file_is_read_once_its_size_is_steady() {
    let mut wait = MediaWait::new();
    let mut steps = 0;
    loop {
        steps += 1;
        match wait.sample(100) {
            MediaStep::Wait => {}
            MediaStep::Read => break,
            MediaStep::TooLarge => panic!("gave up on a small file"),
        }
        assert!(steps < 100);
    }
    assert!(steps > 1);
}

#[test]
fn image_addresses_are_told_by_their_names() {
    assert!(is_image_url("https://example.org/a.PNG"));
    assert!(is_image_url("https://example.org/a.webp?size=1"));
    assert!(is_image_url("https://example.org/download#photo.jpg"));
    assert!(!is_image_url("https://example.org/a.html"));
    assert!(!is_image_url("https://example.org/a.png#section"));
    assert!(is_twemoji_url(
        "https://cdnjs.cloudflare.com/ajax/libs/twemoji/14.0.2/72x72/1f600.png"
    ));
    assert!(!is_twemoji_url("https://example.org/1f600.png"));
}

#[test]
fn only_safe_links_of_a_message_are_previewed() {
    let sections = ANSIParser::parse(
        "see https://example.org/a.png and https://example.org/page and https://example.org/evil",
    );
    let links = message_links(&sections);
    assert_eq!(
        links,
        vec![
            "https://example.org/a.png",
            "https://example.org/page",
            "https://example.org/evil"
        ]
    );
    let checked: Vec<CheckedLink> = links
        .into_iter()
        .map(|url| CheckedLink {
            is_safe: !url.ends_with("evil"),
            url,
        })
        .collect();
    let found = preview_targets(&checked, None, true, true);
    assert_eq!(found.image_urls, vec!["https://example.org/a.png"]);
    assert_eq!(found.preview_urls, vec!["https://example.org/page"]);
    assert_eq!(found.matrix_image_key, None);
    let hidden = preview_targets(&checked, None, false, false);
    assert!(hidden.image_urls.is_empty() && hidden.preview_urls.is_empty());
}

#[test]
fn messages_with_images_load_them_once() {
    let media = MatrixMedia {
        mxc_uri: "mxc://example.org/x".to_owned(),
        name: "x.png".to_owned(),
        kind: "image".to_owned(),
    };
    assert_eq!(rendered_message("body", Some(&media), true), "📎 x.png");
    assert_eq!(rendered_message("body", Some(&media), false), "body");
    assert_eq!(rendered_message("body", None, true), "body");

    let links = vec![CheckedLink {
        url: "https://example.org/a.png".to_owned(),
        is_safe: true,
    }];
    let found = preview_targets(&links, Some(&media), true, true);
    let mut state = MediaState::new();
    let first = state.render_message_content(&found, true, true);
    assert!(first.download);
    assert_eq!(first.fetch, vec!["https://example.org/a.png"]);
    let second = state.render_message_content(&found, true, true);
    assert!(!second.download);
    assert!(second.fetch.is_empty());
    assert_eq!(
        state.shown_image_keys(&found, true),
        vec!["https://example.org/a.png", "mxc://example.org/x"]
    );
    assert!(state.shown_image_keys(&found, false).is_empty());
}

#[test]
fn previews_and_images_fold_and_unfold() {
    let mut state = MediaState::new();
    let url = "https://example.org/page";
    assert!(state.toggle_preview(url, true));
    assert!(state.preview_expanded.contains(url));
    assert!(!state.toggle_preview(url, true));
    assert!(!state.preview_expanded.contains(url));
    assert!(!state.toggle_preview(url, true));
    let image = "https://example.org/a.png";
    assert!(state.toggle_image(image, true));
    state.toggle_full_size(image);
    assert!(state.image_full_size.contains(image));
    assert!(!state.toggle_image(image, true));
    assert!(!state.image_full_size.contains(image));
    assert!(!state.toggle_image("https://example.org/unsafe.png", false));
}

#[test]
fn avatars_fall_back_to_a_letter() {
    let mut state = MediaState::new();
    let key = "mxc://example.org/avatar";
    assert_eq!(state.avatar_image(None), AvatarImage::Letter);
    assert!(!state.show_avatar(key, false));
    assert!(state.show_avatar(key, true));
    assert!(!state.show_avatar(key, true));
    assert_eq!(state.avatar_image(Some(key)), AvatarImage::Letter);
    state.image_arrived(key, true);
    assert_eq!(state.avatar_image(Some(key)), AvatarImage::Small);
    state.image_arrived("https://example.org/plain.png", true);
    assert_eq!(
        state.avatar_image(Some("https://example.org/plain.png")),
        AvatarImage::Full
    );
    state.image_arrived("https://example.org/broken.png", false);
    assert_eq!(
        state.avatar_image(Some("https://example.org/broken.png")),
        AvatarImage::Letter
    );
}

#[test]
fn previews_come_from_the_page() {
    let page = b"<html><head><title>A &amp; B</title>\
        <meta property=\"og:description\" content=\"Text\">\
        <meta property=\"og:site_name\" content=\"Site\"></head></html>";
    let preview = link_preview("https://example.org/", "Text/HTML; charset=utf-8", page)
        .expect("a preview");
    assert_eq!(preview.title.as_deref(), Some("A & B"));
    assert_eq!(preview.description.as_deref(), Some("Text"));
    assert_eq!(preview.site_name.as_deref(), Some("Site"));
    assert_eq!(preview.image_url, None);
    assert_eq!(
        link_preview("https://example.org/", "image/png", page).map(|_| ()),
        Err("not html".to_owned())
    );
    let mut state = MediaState::new();
    let shown = LinkPreview {
        title: preview.title,
        description: preview.description,
        image_url: Some("https://example.org/og.png".to_owned()),
        site_name: preview.site_name,
    };
    state.preview_arrived("https://example.org/", Some(shown), true);
    assert!(matches!(
        state.preview_cache.get("https://example.org/"),
        Some(PreviewState::Loaded(_))
    ));
}

#[test]
fn caches_keep_to_their_size() {
    let mut map: TextMap<ImageState> = TextMap::new();
    for name in ["a", "b", "c"] {
        map.insert(name.to_owned(), ImageState::Loaded);
    }
    cap_map(&mut map, 2);
    assert_eq!(map.len(), 2);
    cap_map(&mut map, 5);
    assert_eq!(map.len(), 2);
}

#[test]
fn captions_and_short_texts() {
    assert_eq!(image_caption(640, 480, false), "640 × 480  ·  click to enlarge");
    assert_eq!(image_caption(1, 2, true), "1 × 2  ·  click to shrink");
    assert_eq!(shorten("abcdef", 3), "abc…");
    assert_eq!(shorten("abc", 3), "abc");
    assert_eq!(first_chars_of("дома", 2), "до");
    assert_eq!(with_sender("ada", "hello"), "<ada> hello");
}

#[test]
fn pictures_are_decoded_from_their_bytes() {
    let rgba: Vec<u8> = (0..2 * 3 * 4).map(|k| k * 10).collect();
    let png = clipboard_png(2, 3, rgba.clone()).expect("encodes");
    let picture = inline_picture(&png).expect("a picture");
    assert_eq!((picture.width, picture.height), (2, 3));
    assert_eq!(picture.rgba, rgba);
    assert!(inline_picture(b"no image").is_err());
    assert!(inline_picture(&png[..png.len() / 2]).is_err());
    assert_eq!(
        inline_picture(&solid_png(8193, 1)).map(|_| ()),
        Err("Image dimensions are too large for an inline preview".to_owned())
    );
}

#[test]
fn moving_pictures_show_their_first_frame() {
    let gif: [u8; 43] = [
        0x47, 0x49, 0x46, 0x38, 0x39, 0x61, 1, 0, 1, 0, 0x80, 0, 0, 255, 0, 0, 255, 255, 255, 0x21,
        0xf9, 4, 0, 0, 0, 0, 0, 0x2c, 0, 0, 0, 0, 1, 0, 1, 0, 0, 2, 2, 0x44, 1, 0, 0x3b,
    ];
    let picture = inline_picture(&gif).expect("a picture");
    assert_eq!((picture.width, picture.height), (1, 1));
    assert_eq!(picture.rgba, vec![255, 0, 0, 255]);
}

#[test]
fn fetched_bytes_decide_what_is_shown() {
    let mut state = MediaState::new();
    let url = "https://example.org/a.png";
    assert!(state.ensure_image_loading(url, true));
    let picture = state.take_image(url, Ok(solid_png(3, 5))).expect("shown");
    assert_eq!((picture.width, picture.height), (3, 5));
    assert_eq!(picture.rgba[..4], [12, 34, 56, 255]);
    assert_eq!(state.image_cache.get(url), Some(&ImageState::Loaded));
    assert!(state.take_image(url, Ok(b"no image".to_vec())).is_none());
    assert_eq!(state.image_cache.get(url), Some(&ImageState::Failed));
    assert!(state.take_image("other", Err("timeout".to_owned())).is_none());
    assert_eq!(state.image_cache.get("other"), Some(&ImageState::Failed));
}

#[test]
fn caches_stay_full_at_their_limit() {
    let mut state = MediaState::new();
    for n in 0..IMAGE_CACHE_MAX + 3 {
        state.image_arrived(&format!("image {n}"), true);
    }
    let kept = (0..IMAGE_CACHE_MAX + 3)
        .filter(|n| state.image_cache.contains_key(&format!("image {n}")))
        .count();
    assert_eq!(kept, IMAGE_CACHE_MAX);
    for n in 0..PREVIEW_CACHE_MAX + 3 {
        assert!(state.preview_arrived(&format!("page {n}"), None, true).is_none());
    }
    let kept = (0..PREVIEW_CACHE_MAX + 3)
        .filter(|n| state.preview_cache.contains_key(&format!("page {n}")))
        .count();
    assert_eq!(kept, PREVIEW_CACHE_MAX);
}

#[test]
fn avatars_keep_even_colours() {
    // Nine pixels wide, three high: the middle square is blue, its green uneven.
    let mut rgba = Vec::new();
    for _ in 0..3 {
        for x in 0..9u8 {
            let inside = (3..6).contains(&x);
            let red = if inside { 17 } else { 200 };
            let blue = if inside { 255 } else { 3 };
            rgba.extend([red, x * 20, blue, 128]);
        }
    }
    for edge in [1, 2, 7, 64] {
        let pixels = avatar_thumbnail(eight_bits(9, 3, rgba.clone()), edge);
        assert_eq!(pixels.len() as u32, edge * edge * 4);
        assert!(pixels
            .chunks(4)
            .all(|pixel| (pixel[0], pixel[2], pixel[3]) == (17, 255, 128)));
    }
}

#[test]
fn emoji_are_fetched_once() {
    let mut state = MediaState::new();
    assert!(state.ensure_emoji_loading("https://example.org/1f600.png"));
    assert!(!state.ensure_emoji_loading("https://example.org/1f600.png"));
    assert!(!state.image_expanded.contains("https://example.org/1f600.png"));
}

fn deep_png(width: u32, height: u32, samples: Vec<u16>) -> Vec<u8> {
    let image = image::DynamicImage::ImageRgba16(
        image::ImageBuffer::from_raw(width, height, samples).expect("enough samples"),
    );
    let mut bytes = Vec::new();
    image
        .write_to(
            &mut std::io::Cursor::new(&mut bytes),
            image::ImageFormat::Png,
        )
        .expect("encode fixture");
    bytes
}

#[test]
fn deep_pictures_keep_their_samples() {
    let samples: Vec<u16> = (0..2 * 4).map(|k| k * 9000).collect();
    let picture = inline_picture(&deep_png(2, 1, samples.clone())).expect("a picture");
    assert_eq!(picture.fine.as_ref(), Some(&samples));
    let rounded: Vec<u8> = samples
        .iter()
        .map(|sample| ((*sample as u32 + 128) / 257) as u8)
        .collect();
    assert_eq!(picture.rgba, rounded);
    // The left one of the two pixels, rounded.
    assert_eq!(avatar_thumbnail(picture, 1), rounded[..4]);
    assert!(inline_picture(&solid_png(2, 1)).expect("a picture").fine.is_none());
}

#[test]
fn deep_avatars_are_scaled_before_they_are_rounded() {
    // At eight bits the rows have the values 0 and 1, with 1 for their mean.
    let mut samples = Vec::new();
    for value in [0u16, 200] {
        for _ in 0..2 {
            samples.extend([value, 0, 65535, 65535]);
        }
    }
    let picture = inline_picture(&deep_png(2, 2, samples)).expect("a picture");
    assert_eq!(avatar_thumbnail(picture, 1), vec![0, 0, 255, 255]);
}

#[test]
fn deep_squares_are_cut_out_exactly() {
    let samples: Vec<u16> = (0..4 * 3 * 2).map(|k| k * 1000).collect();
    let expected: Vec<u16> = [0, 1, 2, 3, 4, 5, 6, 7, 12, 13, 14, 15, 16, 17, 18, 19]
        .iter()
        .map(|k| k * 1000)
        .collect();
    assert_eq!(fine_avatar_pixels(3, 2, samples), expected);
}
