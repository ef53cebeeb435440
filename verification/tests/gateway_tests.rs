use restro_keyboard::engine::InputBuffer;
use restro_keyboard::gateway::{
    handle_event, vk_to_char, Config, KeyEvent, Language, ModifierState, Transition, VK_BACK,
    VK_CONTROL, VK_SPACE,
};
use restro_keyboard::rules::bangla_table;

fn default_config() -> Config {
    Config {
        enabled: true,
        active_language: Language::Bangla,
        hotkey_enabled: true,
        intercept_all: true,
    }
}

fn down(vk_code: u32) -> KeyEvent {
    KeyEvent { vk_code, transition: Transition::Down, injected: false }
}

fn up(vk_code: u32) -> KeyEvent {
    KeyEvent { vk_code, transition: Transition::Up, injected: false }
}

#[test]
fn hotkey_toggles_language_once_and_swallows_space() {
    let t = bangla_table();
    let mut cfg = default_config();
    let mut mods = ModifierState { ctrl_pressed: false };
    let mut buf = InputBuffer::new();

    let r1 = handle_event(&t, &mut cfg, &mut mods, &mut buf, down(VK_CONTROL));
    assert!(!r1.swallow, "control down is propagated");
    assert!(mods.ctrl_pressed);
    assert_eq!(cfg.active_language, Language::Bangla, "control alone does not toggle");

    let r2 = handle_event(&t, &mut cfg, &mut mods, &mut buf, down(VK_SPACE));
    assert!(r2.swallow, "the hotkey space is swallowed");
    assert!(r2.replacement.is_none());
    assert_eq!(cfg.active_language, Language::English, "toggled exactly once");

    let r3 = handle_event(&t, &mut cfg, &mut mods, &mut buf, up(VK_CONTROL));
    assert!(!r3.swallow);
    assert!(!mods.ctrl_pressed);
}

#[test]
fn space_alone_never_toggles() {
    let t = bangla_table();
    let mut cfg = default_config();
    let mut mods = ModifierState { ctrl_pressed: false };
    let mut buf = InputBuffer::new();
    let r = handle_event(&t, &mut cfg, &mut mods, &mut buf, down(VK_SPACE));
    assert!(!r.swallow);
    assert!(r.replacement.is_none());
    assert_eq!(cfg.active_language, Language::Bangla);
}

#[test]
fn hotkey_needs_the_hotkey_enabled_flag() {
    let t = bangla_table();
    let mut cfg = default_config();
    cfg.hotkey_enabled = false;
    let mut mods = ModifierState { ctrl_pressed: true };
    let mut buf = InputBuffer::new();
    let r = handle_event(&t, &mut cfg, &mut mods, &mut buf, down(VK_SPACE));
    assert!(!r.swallow);
    assert_eq!(cfg.active_language, Language::Bangla);
}

#[test]
fn injected_events_pass_through_untouched() {
    let t = bangla_table();
    let mut cfg = default_config();
    let mut mods = ModifierState { ctrl_pressed: true };
    let mut buf = InputBuffer::new();
    handle_event(&t, &mut cfg, &mut mods, &mut buf, down(0x58));
    assert_eq!(buf.chars, vec!['x']);

    let injected = KeyEvent { vk_code: 0x41, transition: Transition::Down, injected: true };
    let r = handle_event(&t, &mut cfg, &mut mods, &mut buf, injected);
    assert!(!r.swallow, "injected events are always propagated");
    assert!(r.replacement.is_none());
    assert_eq!(buf.chars, vec!['x'], "injected events never touch the buffer");
    assert_eq!(cfg, default_config(), "injected events never reach the hotkey");
    assert!(mods.ctrl_pressed);

    let injected_space = KeyEvent { vk_code: VK_SPACE, transition: Transition::Down, injected: true };
    let r2 = handle_event(&t, &mut cfg, &mut mods, &mut buf, injected_space);
    assert!(!r2.swallow);
    assert_eq!(cfg.active_language, Language::Bangla);
}

#[test]
fn letter_in_bangla_mode_is_replaced_and_swallowed() {
    let t = bangla_table();
    let mut cfg = default_config();
    let mut mods = ModifierState { ctrl_pressed: false };
    let mut buf = InputBuffer::new();
    let r = handle_event(&t, &mut cfg, &mut mods, &mut buf, down(0x4B));
    assert!(r.swallow);
    let rep = r.replacement.expect("k resolves to a glyph");
    assert_eq!(rep.insert_text, "ক");
    assert_eq!(rep.erase_count, 1);
}

#[test]
fn unmatched_letter_propagates_but_is_buffered() {
    let t = bangla_table();
    let mut cfg = default_config();
    let mut mods = ModifierState { ctrl_pressed: false };
    let mut buf = InputBuffer::new();
    let r = handle_event(&t, &mut cfg, &mut mods, &mut buf, down(0x58));
    assert!(!r.swallow);
    assert!(r.replacement.is_none());
    assert_eq!(buf.chars, vec!['x']);
}

#[test]
fn backspace_pops_the_buffer_and_propagates() {
    let t = bangla_table();
    let mut cfg = default_config();
    let mut mods = ModifierState { ctrl_pressed: false };
    let mut buf = InputBuffer::new();
    handle_event(&t, &mut cfg, &mut mods, &mut buf, down(0x58));
    handle_event(&t, &mut cfg, &mut mods, &mut buf, down(0x57));
    assert_eq!(buf.chars, vec!['x', 'w']);
    let r = handle_event(&t, &mut cfg, &mut mods, &mut buf, down(VK_BACK));
    assert!(!r.swallow);
    assert!(r.replacement.is_none());
    assert_eq!(buf.chars, vec!['x']);
}

#[test]
fn disabled_keyboard_passes_everything() {
    let t = bangla_table();
    let mut cfg = default_config();
    cfg.enabled = false;
    let mut mods = ModifierState { ctrl_pressed: true };
    let mut buf = InputBuffer::new();
    let r = handle_event(&t, &mut cfg, &mut mods, &mut buf, down(0x4B));
    assert!(!r.swallow);
    assert!(r.replacement.is_none());
    assert!(buf.chars.is_empty());
    let r2 = handle_event(&t, &mut cfg, &mut mods, &mut buf, down(VK_SPACE));
    assert!(!r2.swallow);
    assert_eq!(cfg.active_language, Language::Bangla, "hotkey needs the keyboard enabled");
}

#[test]
fn english_mode_passes_letters() {
    let t = bangla_table();
    let mut cfg = default_config();
    cfg.active_language = Language::English;
    let mut mods = ModifierState { ctrl_pressed: false };
    let mut buf = InputBuffer::new();
    let r = handle_event(&t, &mut cfg, &mut mods, &mut buf, down(0x4B));
    assert!(!r.swallow);
    assert!(r.replacement.is_none());
    assert!(buf.chars.is_empty());
}

#[test]
fn virtual_keys_fold_to_lowercase_letters_and_digits() {
    assert_eq!(vk_to_char(0x41), Some('a'));
    assert_eq!(vk_to_char(0x4B), Some('k'));
    assert_eq!(vk_to_char(0x5A), Some('z'));
    assert_eq!(vk_to_char(0x30), Some('0'));
    assert_eq!(vk_to_char(0x39), Some('9'));
    assert_eq!(vk_to_char(VK_SPACE), None);
    assert_eq!(vk_to_char(VK_CONTROL), None);
    assert_eq!(vk_to_char(0x3A), None);
    assert_eq!(vk_to_char(0x60), None);
}
