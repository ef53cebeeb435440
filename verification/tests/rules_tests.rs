use restro_keyboard::rules::{bangla_table, str_eq, Glyph, RuleTable};

fn glyph_text(g: Glyph) -> &'static str {
    g.text()
}

#[test]
fn table_maps_the_basic_rows() {
    let t = bangla_table();
    let consonant = t.lookup_str("k").expect("k is mapped");
    assert!(matches!(consonant, Glyph::Consonant(_)));
    assert_eq!(glyph_text(consonant), "ক");

    let aspirate = t.lookup_str("kh").expect("kh is mapped");
    assert_eq!(glyph_text(aspirate), "খ");

    let vowel = t.lookup_str("a").expect("a is mapped");
    assert!(matches!(vowel, Glyph::Vowel(_)));
    assert_eq!(glyph_text(vowel), "অ");

    let long_vowel = t.lookup_str("rri").expect("rri is mapped");
    assert_eq!(glyph_text(long_vowel), "ঋ");

    let digit = t.lookup_str("5").expect("digits are mapped");
    assert!(matches!(digit, Glyph::Digit(_)));
    assert_eq!(glyph_text(digit), "৫");

    let sign = t.lookup_str("O").expect("O is mapped");
    assert!(matches!(sign, Glyph::VowelSign(_)));
    assert_eq!(glyph_text(sign), "ো");
}

#[test]
fn absent_keys_answer_none() {
    let t = bangla_table();
    assert!(t.lookup_str("x").is_none());
    assert!(t.lookup_str("qq").is_none());
    assert!(t.lookup_str("ka").is_none());
}

#[test]
fn insert_rejects_duplicates_and_bad_lengths() {
    let mut t = RuleTable::new();
    assert!(t.insert("go", Glyph::Consonant("গ")));
    assert!(!t.insert("go", Glyph::Vowel("আ")), "a duplicate key is rejected");
    assert!(!t.insert("", Glyph::Vowel("আ")), "an empty key is rejected");
    assert!(!t.insert("gggg", Glyph::Vowel("আ")), "a four-character key is rejected");
    let kept = t.lookup_str("go").expect("the first association is kept");
    assert!(matches!(kept, Glyph::Consonant(_)));
}

#[test]
fn consonant_classification_follows_the_table() {
    let t = bangla_table();
    assert!(t.is_consonant_char('k'));
    assert!(t.is_consonant_char('m'));
    assert!(!t.is_consonant_char('a'), "vowels are not consonants");
    assert!(!t.is_consonant_char('x'), "unmapped characters are not consonants");
    assert!(!t.is_consonant_char('5'));
}

#[test]
fn string_equality_is_by_characters() {
    assert!(str_eq("kha", "kha"));
    assert!(!str_eq("kha", "khA"));
    assert!(!str_eq("kh", "kha"));
    assert!(str_eq("", ""));
    assert!(str_eq("কি", "কি"));
}
