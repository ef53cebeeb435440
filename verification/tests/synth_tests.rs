use restro_keyboard::engine::Replacement;
use restro_keyboard::synth::{
    build_plan, SynthEvent, SynthKey, SynthStep, ERASE_DELAY_MS, INSERT_DELAY_MS,
};

fn key(step_key: SynthKey, press: bool) -> SynthStep {
    SynthStep::Key(SynthEvent { key: step_key, press, injected: true })
}

#[test]
fn plan_erases_then_inserts_with_delays() {
    let rep = Replacement { insert_text: String::from("কি"), erase_count: 2 };
    let plan = build_plan(&rep);
    let expected = vec![
        key(SynthKey::Backspace, true),
        key(SynthKey::Backspace, false),
        SynthStep::Delay(ERASE_DELAY_MS),
        key(SynthKey::Backspace, true),
        key(SynthKey::Backspace, false),
        SynthStep::Delay(ERASE_DELAY_MS),
        SynthStep::Delay(ERASE_DELAY_MS),
        key(SynthKey::Text('ক'), true),
        key(SynthKey::Text('ক'), false),
        SynthStep::Delay(INSERT_DELAY_MS),
        key(SynthKey::Text('ি'), true),
        key(SynthKey::Text('ি'), false),
        SynthStep::Delay(INSERT_DELAY_MS),
    ];
    assert_eq!(plan, expected);
}

#[test]
fn plan_for_empty_text_only_erases() {
    let rep = Replacement { insert_text: String::new(), erase_count: 1 };
    let plan = build_plan(&rep);
    let expected = vec![
        key(SynthKey::Backspace, true),
        key(SynthKey::Backspace, false),
        SynthStep::Delay(ERASE_DELAY_MS),
    ];
    assert_eq!(plan, expected);
}

#[test]
fn plan_without_erasure_still_pauses_before_text() {
    let rep = Replacement { insert_text: String::from("অ"), erase_count: 0 };
    let plan = build_plan(&rep);
    let expected = vec![
        SynthStep::Delay(ERASE_DELAY_MS),
        key(SynthKey::Text('অ'), true),
        key(SynthKey::Text('অ'), false),
        SynthStep::Delay(INSERT_DELAY_MS),
    ];
    assert_eq!(plan, expected);
}

#[test]
fn plan_for_noop_replacement_is_empty() {
    let rep = Replacement { insert_text: String::new(), erase_count: 0 };
    assert!(build_plan(&rep).is_empty());
}

#[test]
fn every_key_step_is_tagged_injected() {
    let rep = Replacement { insert_text: String::from("ক্ক"), erase_count: 2 };
    for step in build_plan(&rep) {
        if let SynthStep::Key(event) = step {
            assert!(event.injected);
        }
    }
}
