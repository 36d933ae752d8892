use weechatrs::ansi::ANSIParser;
use weechatrs::connection::{
    default_file_share_duration, default_prefix_suffix, default_true, migrate_legacy_profile,
    AppSettings, BackendType, ConnectionProfile,
};
use weechatrs::models::{MatrixMemberProfile, MentionCandidate, Nick};
use weechatrs::panels::{
    avatar_nick_of, card_mention, cluster_profile_card, identity_mention, nick_text,
    plain_clusters, NickColors,
};
use weechatrs::people::{
    compact_matrix_irc_bridge_prefix, compact_matrix_prefix_sections, compact_matrix_sender_label,
    matrix_identity_disambiguator, matrix_identity_source, matrix_nick_clusters,
    matrix_profile_for_nick, matrix_profile_query_target, matrix_user_id_for_nick,
    message_sender_profile_card, MatrixProfileIdentity, UserProfileCard,
};


fn profile(user_id: &str, display_name: &str, nick: &str) -> MatrixMemberProfile {
    MatrixMemberProfile {
        user_id: user_id.to_owned(),
        display_name: display_name.to_owned(),
        nick: nick.to_owned(),
        membership: "join".to_owned(),
        role: "member".to_owned(),
        power_level: Some(0),
        avatar_mxc: None,
    }
}

#[test]
fn profile_lookup_prefers_exact_room_nick_and_rejects_ambiguous_display_names() {
    let profiles = vec![
        profile("@one:example.org", "Alex", "Alex (@one:example.org)"),
        profile("@two:example.org", "Alex", "Alex (@two:example.org)"),
    ];
    assert_eq!(
        matrix_profile_for_nick(&profiles, "Alex (@two:example.org)")
            .map(|profile| profile.user_id),
        Some("@two:example.org".to_owned())
    );
    assert!(matrix_profile_for_nick(&profiles, "Alex").is_none());
    let ranked = vec![profile("@strk:osgeo.org", "strk 🧭", "strk 🧭")];
    assert_eq!(
        matrix_profile_for_nick(&ranked, "&strk 🧭").map(|profile| profile.user_id),
        Some("@strk:osgeo.org".to_owned())
    );

    let candidates = vec![
        MentionCandidate {
            display_name: "Ada".to_owned(),
            user_id: "@ada:example.org".to_owned(),
        },
        MentionCandidate {
            display_name: "Grace".to_owned(),
            user_id: "@grace:example.org".to_owned(),
        },
    ];
    assert_eq!(
        matrix_user_id_for_nick(&candidates, "Ada"),
        Some("@ada:example.org".to_owned())
    );
}

fn nick(name: &str) -> Nick {
    Nick {
        name: name.to_owned(),
        prefix: String::new(),
        color_ansi: String::new(),
        away: false,
    }
}

#[test]
fn matrix_nick_rows_keep_identities_separate_with_short_disambiguation() {
    let clusters = matrix_nick_clusters(&vec![
        nick("GrayShade (@grayshade:dend.ro)"),
        nick("GrayShade (@irc_libera.chat_grayshade:osgeo.org)"),
        nick("Someone else"),
    ]);

    assert_eq!(clusters.len(), 3);
    assert_eq!(clusters[0].display_name, "GrayShade");
    assert_eq!(clusters[0].members.len(), 1);
    assert_eq!(clusters[0].user_ids, ["@grayshade:dend.ro"]);
    assert_eq!(clusters[1].display_name, "GrayShade");
    assert_eq!(
        clusters[1].user_ids,
        ["@irc_libera.chat_grayshade:osgeo.org"]
    );
    assert_eq!(clusters[2].display_name, "Someone else");
    assert!(clusters[2].user_ids.is_empty());
}

#[test]
fn matrix_nick_clusters_do_not_merge_unproven_same_name_members() {
    let clusters = matrix_nick_clusters(&vec![nick("Alex"), nick("Alex")]);
    assert_eq!(clusters.len(), 2);
    assert!(clusters.iter().all(|cluster| cluster.members.len() == 1));
}

#[test]
fn matrix_identity_sources_keep_native_and_bridge_accounts_distinct() {
    assert_eq!(matrix_identity_source("@grayshade:dend.ro"), "dend.ro");
    assert_eq!(
        matrix_identity_source("@irc_libera.chat_grayshade:osgeo.org"),
        "osgeo.org"
    );
    assert_eq!(matrix_identity_source("@someone:matrix.example:8448"), "matrix.example:8448");
    assert_eq!(matrix_identity_disambiguator("@grayshade:dend.ro"), "dend");
    assert_eq!(
        matrix_identity_disambiguator("@irc_libera.chat_grayshade:osgeo.org"),
        "osgeo"
    );
}

#[test]
fn matrix_message_prefix_uses_the_same_short_disambiguation() {
    let sections = ANSIParser::parse(
        "\x1b[32mGrayShade\x1b[0m (@grayshade:dend.ro)",
    );
    let compact = compact_matrix_prefix_sections(
        "GrayShade (@grayshade:dend.ro)",
        &sections,
    );
    assert_eq!(
        compact
            .iter()
            .map(|section| section.text.as_str())
            .collect::<String>(),
        "GrayShade ·dend"
    );
    assert_eq!(compact[0].style, sections[0].style);
}

#[test]
fn matrix_irc_bridge_prefix_keeps_nick_and_short_network() {
    let sections = ANSIParser::parse("\x1b[38;5;178mirc_libera.chat_darkblueb\x1b[0m");
    let compact = compact_matrix_prefix_sections(
        "irc_libera.chat_darkblueb",
        &sections,
    );
    assert_eq!(
        compact
            .iter()
            .map(|section| section.text.as_str())
            .collect::<String>(),
        "darkblueb ·libera"
    );
    assert_eq!(compact[0].style, sections[0].style);
    assert_eq!(
        compact_matrix_irc_bridge_prefix("@irc_oftc.chat_someone"),
        Some(("@someone".to_owned(), "oftc".to_owned()))
    );
    assert_eq!(
        compact_matrix_sender_label("irc_libera.chat_darkblueb"),
        "darkblueb ·libera"
    );
    assert_eq!(
        compact_matrix_sender_label("GrayShade (@grayshade:dend.ro)"),
        "GrayShade ·dend"
    );
    assert_eq!(compact_matrix_irc_bridge_prefix("ordinary_nick"), None);
}

#[test]
fn decorated_profile_lookup_never_substitutes_another_identity() {
    let profiles = vec![profile("@other:example.org", "GrayShade", "GrayShade")];
    assert!(matrix_profile_for_nick(
        &profiles,
        "GrayShade (@missing:example.org)"
    )
    .is_none());
}

#[test]
fn message_sender_profile_uses_matrix_identity_and_ranked_prefixes() {
    let profiles = vec![profile("@strk:osgeo.org", "strk 🧭", "strk 🧭")];
    let card = message_sender_profile_card(
        "matrix/room",
        "&strk 🧭",
        "matrix",
        true,
        &profiles,
        &Vec::new(),
    )
    .expect("ranked Matrix sender should resolve to a room member");

    assert_eq!(card.nick, "strk 🧭");
    assert_eq!(card.matrix_user_id.as_deref(), Some("@strk:osgeo.org"));
    assert_eq!(card.matrix.unwrap().display_name, "strk 🧭");
}

#[test]
fn matrix_profile_query_uses_mxid_not_display_nick() {
    let profiles = vec![profile("@strk:osgeo.org", "strk 🧭", "strk 🧭")];
    let card = message_sender_profile_card(
        "matrix/room",
        "&strk 🧭",
        "matrix",
        true,
        &profiles,
        &Vec::new(),
    )
    .expect("ranked Matrix sender should resolve to a room member");

    assert_eq!(
        matrix_profile_query_target(&card).as_deref(),
        Some("@strk:osgeo.org")
    );
}

#[test]
fn matrix_profile_query_uses_single_identity_when_profile_is_missing() {
    let card = UserProfileCard {
        buffer_id: "matrix/room".to_owned(),
        nick: "Sandro".to_owned(),
        prefix: String::new(),
        server: "matrix".to_owned(),
        is_matrix: true,
        matrix_user_id: None,
        matrix: None,
        matrix_identities: vec![MatrixProfileIdentity {
            user_id: "@strk:osgeo.org".to_owned(),
            profile: None,
        }],
    };

    assert_eq!(
        matrix_profile_query_target(&card).as_deref(),
        Some("@strk:osgeo.org")
    );
}

#[test]
fn matrix_profile_query_refuses_ambiguous_identities() {
    let card = UserProfileCard {
        buffer_id: "matrix/room".to_owned(),
        nick: "Sandro".to_owned(),
        prefix: String::new(),
        server: "matrix".to_owned(),
        is_matrix: true,
        matrix_user_id: None,
        matrix: None,
        matrix_identities: vec![
            MatrixProfileIdentity {
                user_id: "@strk:osgeo.org".to_owned(),
                profile: None,
            },
            MatrixProfileIdentity {
                user_id: "@strk:matrix.org".to_owned(),
                profile: None,
            },
        ],
    };

    assert!(matrix_profile_query_target(&card).is_none());
}

#[test]
fn message_sender_profile_requires_a_real_irc_nick() {
    let nicks = vec![Nick {
        name: "Komzpa".to_owned(),
        prefix: "@".to_owned(),
        color_ansi: String::new(),
        away: false,
    }];
    let card = message_sender_profile_card(
        "irc/room",
        "@Komzpa",
        "libera",
        false,
        &Vec::new(),
        &nicks,
    )
    .expect("ranked IRC sender should resolve to the current nicklist");

    assert_eq!(card.nick, "Komzpa");
    assert_eq!(card.prefix, "@");
    assert!(message_sender_profile_card(
        "irc/room",
        "--",
        "libera",
        false,
        &Vec::new(),
        &nicks,
    )
    .is_none());
}

#[test]
fn legacy_localhost_relay_is_migrated_and_autoconnected() {
    let mut settings = AppSettings::default();
    settings.host = "localhost".to_owned();
    settings.port = "9000".to_owned();
    settings.use_ssl = false;
    settings.save_password = true;

    let profile = migrate_legacy_profile(&settings).expect("legacy profile");
    assert_eq!(profile.label, "localhost");
    assert_eq!(profile.host, "localhost");
    assert_eq!(profile.port, "9000");
    assert!(!profile.use_ssl);
    assert!(profile.auto_connect);
    assert!(profile.save_password);
}

#[test]
fn legacy_saved_keyring_profile_autoconnects_even_if_checkbox_was_false() {
    let mut settings = AppSettings::default();
    settings.host = "localhost".to_owned();
    settings.port = "9000".to_owned();
    settings.use_ssl = false;
    settings.save_password = false;

    let profile = migrate_legacy_profile(&settings).expect("legacy profile");
    assert_eq!(profile.label, "localhost");
    assert_eq!(profile.host, "localhost");
    assert_eq!(profile.port, "9000");
    assert!(!profile.use_ssl);
    assert!(profile.auto_connect);
    assert!(!profile.save_password);
}

#[test]
fn untouched_defaults_do_not_create_a_phantom_connection() {
    assert!(migrate_legacy_profile(&AppSettings::default()).is_none());
}

#[test]
fn cards_of_rows_lead_with_an_avatar() {
    let mut with_avatar = profile("@two:example.org", "Alex", "Alex (@two:example.org)");
    with_avatar.avatar_mxc = Some("mxc://example.org/alex".to_owned());
    let profiles = vec![
        profile("@one:example.org", "Alex", "Alex (@one:example.org)"),
        with_avatar,
    ];
    let clusters = matrix_nick_clusters(&vec![nick("Alex (@two:example.org)"), nick("Zed")]);
    let card = cluster_profile_card(
        &clusters[0],
        "matrix/room",
        "matrix",
        true,
        &profiles,
        &Vec::new(),
    );
    assert_eq!(card.nick, "Alex");
    assert_eq!(card.matrix_user_id.as_deref(), Some("@two:example.org"));
    assert_eq!(
        card.matrix.as_ref().map(|profile| profile.user_id.as_str()),
        Some("@two:example.org")
    );
    assert_eq!(card.matrix_identities.len(), 1);
    assert_eq!(
        card_mention(&card).map(|person| person.user_id),
        Some("@two:example.org".to_owned())
    );
    let person = identity_mention(&card.matrix_identities[0], "nick");
    assert_eq!(person.user_id, "@two:example.org");
    assert_eq!(person.display_name, "Alex");
    let unknown = MatrixProfileIdentity {
        user_id: "@two:example.org".to_owned(),
        profile: None,
    };
    assert_eq!(identity_mention(&unknown, "nick").display_name, "nick");
    assert_eq!(
        avatar_nick_of(&clusters[0], &profiles),
        "Alex (@two:example.org)"
    );
    assert_eq!(avatar_nick_of(&clusters[1], &profiles), "Zed");

    let candidates = vec![MentionCandidate {
        display_name: "Zed".to_owned(),
        user_id: "@zed:example.org".to_owned(),
    }];
    let card = cluster_profile_card(
        &clusters[1],
        "matrix/room",
        "matrix",
        true,
        &profiles,
        &candidates,
    );
    assert_eq!(card.matrix_user_id.as_deref(), Some("@zed:example.org"));
    assert!(card.matrix.is_none());
}

#[test]
fn nicks_are_coloured_unless_away() {
    let mut ada = nick("ada");
    ada.prefix = "@".to_owned();
    ada.color_ansi = "\x1b[32m".to_owned();
    assert_eq!(nick_text(&ada, "ada", NickColors::Plain), "@ada");
    assert_eq!(nick_text(&ada, "ada", NickColors::Relay), "\x1b[32m@ada");
    // The name "a" has the colour 8, and "ab" the colour 1.
    assert_eq!(nick_text(&ada, "a", NickColors::Hashed), "\x1b[90m@a");
    assert_eq!(nick_text(&ada, "ab", NickColors::Hashed), "\x1b[31m@ab");
    ada.away = true;
    assert_eq!(nick_text(&ada, "ada", NickColors::Relay), "@ada");
    let rows = plain_clusters(&vec![ada, nick("Bob (@bob:example.org)")]);
    assert_eq!(rows[1].display_name, "Bob (@bob:example.org)");
    assert!(rows[1].user_ids.is_empty());
}

#[test]
fn profiles_have_safe_prefixes_and_keys() {
    let mut profile = ConnectionProfile::default();
    assert_eq!(profile.prefix(), "conn");
    assert_eq!(profile.backend_type, BackendType::WeeChat);
    profile.label = "My Relay/2".to_owned();
    profile.host = "example.org".to_owned();
    profile.ssh_host = "gate".to_owned();
    assert_eq!(profile.prefix(), "my_relay_2");
    profile.label = "İ!".to_owned();
    assert_eq!(profile.prefix(), "i__");
    profile.label = "My Relay/2".to_owned();
    assert_eq!(profile.keyring_host_key(), "My Relay/2@example.org");
    assert_eq!(profile.ssh_keyring_key(), "ssh:My Relay/2@gate");
    assert!(default_true());
    assert_eq!(default_prefix_suffix(), "│");
    assert_eq!(default_file_share_duration(), "24h");
}
