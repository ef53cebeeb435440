use restro_keyboard::engine::{process_key, resolve, InputBuffer, BUFFER_LIMIT};
use restro_keyboard::rules::bangla_table;

#[test]
fn initial_vowels_resolve_immediately() {
    let t = bangla_table();
    let cases = [('a', "অ"), ('e', "এ"), ('i', "ই"), ('o', "ও"), ('u', "উ")];
    for (key, glyph) in cases {
        let mut buf = InputBuffer::new();
        let rep = process_key(&t, &mut buf, key).expect("vowel on empty buffer must resolve");
        assert_eq!(rep.insert_text, glyph);
        assert_eq!(rep.erase_count, 1);
        assert_eq!(buf.chars, vec![key], "fast path keeps the keystroke buffered");
    }
}

#[test]
fn inherent_vowel_after_consonant_inserts_nothing() {
    let t = bangla_table();
    let buf = vec!['k', 'a'];
    let rep = resolve(&t, &buf).expect("consonant plus inherent vowel must resolve");
    assert_eq!(rep.insert_text, "");
    assert_eq!(rep.erase_count, 1);
}

#[test]
fn dependent_vowel_signs_after_consonant() {
    let t = bangla_table();
    let cases = [('i', "ি"), ('e', "ে"), ('u', "ু"), ('o', "ো")];
    for (vowel, sign) in cases {
        let buf = vec!['k', vowel];
        let rep = resolve(&t, &buf).expect("short vowel after consonant must resolve");
        assert_eq!(rep.insert_text, sign);
        assert_eq!(rep.erase_count, 1);
    }
}

#[test]
fn longest_match_wins_over_early_vowel() {
    let t = bangla_table();
    let mut buf = InputBuffer::new();
    let first = process_key(&t, &mut buf, 'o').expect("word-initial o resolves at once");
    assert_eq!(first.insert_text, "ও");
    assert_eq!(first.erase_count, 1);
    let second = process_key(&t, &mut buf, 'u').expect("ou must resolve as one rule");
    assert_eq!(second.insert_text, "ঔ");
    assert_eq!(second.erase_count, 2, "the two-character rule supersedes o alone");
    assert!(buf.chars.is_empty());
}

#[test]
fn three_character_rule_erases_three() {
    let t = bangla_table();
    let buf = vec!['r', 'r', 'i'];
    let rep = resolve(&t, &buf).expect("rri is a rule key");
    assert_eq!(rep.insert_text, "ঋ");
    assert_eq!(rep.erase_count, 3);
}

#[test]
fn consonant_after_consonant_joins_as_conjunct() {
    let t = bangla_table();
    let buf = vec!['k', 't'];
    let rep = resolve(&t, &buf).expect("t alone is a rule key");
    assert_eq!(rep.insert_text, "\u{09CD}ট");
    assert_eq!(rep.erase_count, 1);
}

#[test]
fn vowel_rule_after_consonant_takes_dependent_form() {
    let t = bangla_table();
    let buf = vec!['k', 'o', 'i'];
    let rep = resolve(&t, &buf).expect("oi is a rule key");
    assert_eq!(rep.insert_text, "ৈ");
    assert_eq!(rep.erase_count, 2);
}

#[test]
fn unmatched_keystrokes_overflow_and_reset() {
    let t = bangla_table();
    let mut buf = InputBuffer::new();
    let keys = ['x', 'w', 'q', 'x', 'w', 'q'];
    assert_eq!(keys.len(), BUFFER_LIMIT + 1);
    for (step, key) in keys.into_iter().enumerate() {
        let rep = process_key(&t, &mut buf, key);
        assert!(rep.is_none(), "keystroke {} must not emit a replacement", step);
    }
    assert!(buf.chars.is_empty(), "the overflowing keystroke drops the buffer");
    assert!(process_key(&t, &mut buf, 'x').is_none());
    assert_eq!(buf.chars, vec!['x'], "the next keystroke starts a fresh buffer");
}

#[test]
fn buffer_retains_pending_characters_below_limit() {
    let t = bangla_table();
    let mut buf = InputBuffer::new();
    for key in ['x', 'w', 'q'] {
        assert!(process_key(&t, &mut buf, key).is_none());
    }
    assert_eq!(buf.chars, vec!['x', 'w', 'q']);
}

#[test]
fn consonant_resolves_on_its_own_keystroke() {
    let t = bangla_table();
    let mut buf = InputBuffer::new();
    let rep = process_key(&t, &mut buf, 'k').expect("k alone is a rule key");
    assert_eq!(rep.insert_text, "ক");
    assert_eq!(rep.erase_count, 1);
    assert!(buf.chars.is_empty(), "a resolved match clears the buffer");
}

#[test]
fn digits_resolve_to_bangla_numerals() {
    let t = bangla_table();
    let mut buf = InputBuffer::new();
    let rep = process_key(&t, &mut buf, '7').expect("digits are rule keys");
    assert_eq!(rep.insert_text, "৭");
    assert_eq!(rep.erase_count, 1);
}

#[test]
fn pop_newest_supports_backspace_bookkeeping() {
    let t = bangla_table();
    let mut buf = InputBuffer::new();
    assert!(process_key(&t, &mut buf, 'x').is_none());
    assert!(process_key(&t, &mut buf, 'w').is_none());
    buf.pop_newest();
    assert_eq!(buf.chars, vec!['x']);
    buf.pop_newest();
    buf.pop_newest();
    assert!(buf.chars.is_empty(), "popping an empty buffer is a no-op");
}

#[test]
fn each_keystroke_resolves_greedily() {
    // A consonant that is itself a rule key resolves on its own keystroke,
    // so a trailing aspirate letter resolves separately.
    let t = bangla_table();
    let mut buf = InputBuffer::new();
    let first = process_key(&t, &mut buf, 'k').expect("k resolves at once");
    assert_eq!(first.insert_text, "ক");
    let second = process_key(&t, &mut buf, 'h').expect("h resolves on its own");
    assert_eq!(second.insert_text, "হ");
    assert_eq!(second.erase_count, 1);
}
