use restro_keyboard::preview::KeyboardApp;
use restro_keyboard::rules::bangla_table;

#[test]
fn default_panel_state() {
    let app = KeyboardApp::default();
    assert!(!app.show_settings);
    assert!(app.suggestions.is_empty());
    assert_eq!(app.search_text, "");
    assert_eq!(app.selected_category, "All");
}

#[test]
fn empty_search_clears_suggestions() {
    let t = bangla_table();
    let mut app = KeyboardApp::default();
    app.search_text = String::from("kh");
    app.update_suggestions(&t);
    assert!(!app.suggestions.is_empty());
    app.search_text = String::new();
    app.update_suggestions(&t);
    assert!(app.suggestions.is_empty());
}

#[test]
fn search_lists_matching_keys_in_table_order() {
    let t = bangla_table();
    let mut app = KeyboardApp::default();
    app.search_text = String::from("kh");
    app.update_suggestions(&t);
    assert_eq!(app.suggestions, vec![String::from("kh → খ")]);
}

#[test]
fn search_is_case_folded() {
    let t = bangla_table();
    let mut app = KeyboardApp::default();
    app.search_text = String::from("RRI");
    app.update_suggestions(&t);
    assert_eq!(app.suggestions, vec![String::from("rri → ঋ")]);
}

#[test]
fn single_letter_search_spans_every_containing_key() {
    let t = bangla_table();
    let mut app = KeyboardApp::default();
    app.search_text = String::from("j");
    app.update_suggestions(&t);
    assert_eq!(app.suggestions, vec![String::from("j → জ"), String::from("jh → ঝ")]);
}

#[test]
fn digit_search_finds_the_numeral() {
    let t = bangla_table();
    let mut app = KeyboardApp::default();
    app.search_text = String::from("9");
    app.update_suggestions(&t);
    assert_eq!(app.suggestions, vec![String::from("9 → ৯")]);
}

#[test]
fn unmatched_search_yields_no_suggestions() {
    let t = bangla_table();
    let mut app = KeyboardApp::default();
    app.search_text = String::from("zzz");
    app.update_suggestions(&t);
    assert!(app.suggestions.is_empty());
}

#[test]
fn category_filter_follows_the_selection() {
    let t = bangla_table();
    let mut app = KeyboardApp::default();
    assert!(app.matches_category(&t, "k"), "All passes everything");
    assert!(app.matches_category(&t, "no such key"));

    app.selected_category = String::from("Vowels");
    assert!(app.matches_category(&t, "a"));
    assert!(app.matches_category(&t, "ou"));
    assert!(!app.matches_category(&t, "k"));
    assert!(!app.matches_category(&t, "O"), "a vowel sign is not a vowel");
    assert!(!app.matches_category(&t, "x"));

    app.selected_category = String::from("Consonants");
    assert!(app.matches_category(&t, "k"));
    assert!(app.matches_category(&t, "kk"));
    assert!(!app.matches_category(&t, "a"));

    app.selected_category = String::from("Numbers");
    assert!(app.matches_category(&t, "5"));
    assert!(!app.matches_category(&t, "k"));

    app.selected_category = String::from("Special");
    assert!(!app.matches_category(&t, "k"), "the shipped table has no special glyphs");

    app.selected_category = String::from("Everything");
    assert!(!app.matches_category(&t, "k"), "an unknown selection passes nothing");
}
