use weechatrs::completion::{
    apply_native_completion, char_to_byte, contains_complete_mention, matching_mentions,
    matrix_reply_command, mention_query, replace_selection, selected_text,
};
use weechatrs::composer::step_index;
use weechatrs::editing::{edit_menu, input_context_menu, EditChoice};
use weechatrs::models::MentionCandidate;

fn candidate(display_name: &str, user_id: &str) -> MentionCandidate {
    MentionCandidate {
        display_name: display_name.to_owned(),
        user_id: user_id.to_owned(),
    }
}

#[test]
fn reply_command_keeps_the_selected_matrix_event() {
    assert_eq!(
        matrix_reply_command("$chosen:elsewhere.example", "not the latest"),
        "/reply $chosen:elsewhere.example not the latest"
    );
}

#[test]
fn native_command_completion_keeps_the_slash_and_adds_a_space() {
    assert_eq!(
        apply_native_completion("/qu", 3, 1, "qu", "query", true),
        Some(("/query ".to_owned(), 7)),
    );
}

#[test]
fn native_argument_completion_replaces_only_the_server_selected_word() {
    assert_eq!(
        apply_native_completion(
            "/join #po trailing",
            9,
            6,
            "#po",
            "#postgis",
            true,
        ),
        Some(("/join #postgis trailing".to_owned(), 15)),
    );
}

#[test]
fn mention_query_starts_at_at_sign_and_keeps_unicode_cursor() {
    assert_eq!(mention_query("Привет @Ада", 11), Some((13, 20, "Ада".to_owned())));
}

#[test]
fn mention_query_does_not_open_inside_an_email_address() {
    assert_eq!(mention_query("mail@example.org", 16), None);
}

#[test]
fn mention_matches_display_name_and_matrix_id() {
    let candidates = vec![
        candidate("Ada Lovelace", "@ada:example.org"),
        candidate("Grace Hopper", "@amazing:example.org"),
    ];
    assert_eq!(
        matching_mentions(&candidates, "ada"),
        vec![candidate("Ada Lovelace", "@ada:example.org")],
    );
    assert_eq!(
        matching_mentions(&candidates, "amazing"),
        vec![candidate("Grace Hopper", "@amazing:example.org")],
    );
}

#[test]
fn semantic_mentions_require_the_complete_accepted_label() {
    assert!(contains_complete_mention("hi @Ada!", "@Ada"));
    assert!(contains_complete_mention("(@Ada Lovelace)", "@Ada Lovelace"));
    assert!(!contains_complete_mention("hi @Adam", "@Ada"));
    assert!(!contains_complete_mention("hi @Ada_example", "@Ada"));
    assert!(!contains_complete_mention("mail@Ada", "@Ada"));
}

#[test]
fn context_menu_selection_uses_character_offsets() {
    let mut text = "aб😺中z".to_owned();
    assert_eq!(selected_text(&text, 1, 4), "б😺中");

    let cursor = replace_selection(&mut text, 1, 4, "🌍");
    assert_eq!(text, "a🌍z");
    assert_eq!(cursor, 2);
}

#[test]
fn empty_matrix_query_represents_federated_homeservers() {
    let candidates = vec![
        candidate("Ada", "@ada:matrix.org"),
        candidate("Bob", "@bob:matrix.org"),
        candidate("Cara", "@cara:osgeo.org"),
        candidate("Dan", "@dan:dend.ro"),
    ];
    assert_eq!(
        matching_mentions(&candidates, ""),
        vec![
            candidate("Ada", "@ada:matrix.org"),
            candidate("Cara", "@cara:osgeo.org"),
            candidate("Dan", "@dan:dend.ro"),
            candidate("Bob", "@bob:matrix.org"),
        ],
    );
}

#[test]
fn empty_irc_query_keeps_nicks_alphabetical() {
    let candidates = vec![
        candidate("Zed", "Zed"),
        candidate("alice", "alice"),
    ];
    assert_eq!(
        matching_mentions(&candidates, ""),
        vec![candidate("alice", "alice"), candidate("Zed", "Zed")],
    );
}

#[test]
fn character_offsets_become_byte_offsets() {
    assert_eq!(char_to_byte("aб😺", 0), 0);
    assert_eq!(char_to_byte("aб😺", 2), 3);
    assert_eq!(char_to_byte("aб😺", 9), 7);
}

#[test]
fn completions_outside_the_input_are_refused() {
    assert_eq!(apply_native_completion("/q", 9, 1, "q", "query", true), None);
    assert_eq!(apply_native_completion("/q", 1, 2, "q", "query", true), None);
    assert_eq!(apply_native_completion("/é", 3, 2, "", "x", false), None);
}

#[test]
fn steps_go_round() {
    assert_eq!(step_index(0, -1, 3), 2);
    assert_eq!(step_index(2, 1, 3), 0);
    assert_eq!(step_index(1, 1, 3), 2);
}

#[test]
fn cutting_and_pasting_restores_the_text() {
    let mut text = "aб😺中z".to_owned();
    let menu = edit_menu(&text, 1, 4, None);
    assert!(menu.has_selection && !menu.can_paste && menu.can_select_all);
    let cut = input_context_menu(&mut text, 1, 4, EditChoice::Cut);
    assert_eq!(text, "az");
    assert_eq!(cut.copied.as_deref(), Some("б😺中"));
    assert_eq!(cut.selection, Some((1, 1)));
    let pasted = input_context_menu(
        &mut text,
        1,
        1,
        EditChoice::Paste(cut.copied.unwrap()),
    );
    assert_eq!(text, "aб😺中z");
    assert_eq!(pasted.selection, Some((4, 4)));
    let all = input_context_menu(&mut text, 0, 0, EditChoice::SelectAll);
    assert_eq!(all.selection, Some((0, 5)));
    assert!(!edit_menu(&text, 0, 5, Some("x")).can_select_all);
    let copied = input_context_menu(&mut text, 0, 2, EditChoice::Copy);
    assert_eq!(copied.copied.as_deref(), Some("aб"));
    assert_eq!(copied.selection, None);
    input_context_menu(&mut text, 0, 4, EditChoice::Delete);
    assert_eq!(text, "z");
}
