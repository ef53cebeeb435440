//! The hook gateway: the per-event decision taken by the system-wide
//! keyboard interceptor.
//!
//! Every raw event carries a virtual key code, a transition (down or up) and
//! an injected flag.  Injected events — the synthesizer's own output — pass
//! straight through, which breaks the feedback loop.  Genuine events update
//! the modifier state, drive the language hotkey, and in target-language mode
//! feed letters and digits to the transliteration engine.  Exactly one of
//! swallow or propagate is decided per event.

use vstd::prelude::*;
use crate::engine::Emission;
use crate::engine::InputBuffer;
use crate::engine::Replacement;
use crate::engine::process_key;
use crate::engine::spec_step;
use crate::rules::RuleTable;

verus! {

/// Virtual key code of the backspace key.
pub const VK_BACK: u32 = 0x08;

/// Virtual key code of the control key.
pub const VK_CONTROL: u32 = 0x11;

/// Virtual key code of the space key.
pub const VK_SPACE: u32 = 0x20;

/// The two languages the keyboard can emit.
#[derive(Clone, Copy, PartialEq, Eq, Structural, Debug)]
pub enum Language {
    Bangla,
    English,
}

pub open spec fn spec_other_language(l: Language) -> Language {
    match l {
        Language::Bangla => Language::English,
        Language::English => Language::Bangla,
    }
}

/// The shared configuration flags, written by the settings panel and read on
/// every keystroke.
#[derive(Clone, Copy, PartialEq, Eq, Structural, Debug)]
pub struct Config {
    pub enabled: bool,
    pub active_language: Language,
    pub hotkey_enabled: bool,
    pub intercept_all: bool,
}

/// The modifier keys the hotkey depends on; only control is tracked.
#[derive(Clone, Copy, PartialEq, Eq, Structural, Debug)]
pub struct ModifierState {
    pub ctrl_pressed: bool,
}

#[derive(Clone, Copy, PartialEq, Eq, Structural, Debug)]
pub enum Transition {
    Down,
    Up,
}

/// One raw keyboard event as the hook receives it.
#[derive(Clone, Copy, PartialEq, Eq, Structural, Debug)]
pub struct KeyEvent {
    pub vk_code: u32,
    pub transition: Transition,
    pub injected: bool,
}

/// The gateway's answer for one event: whether the event is swallowed, and
/// the replacement to synthesize if the engine resolved a match.
pub struct Response {
    pub swallow: bool,
    pub replacement: Option<Replacement>,
}

/// The Latin character a virtual key code stands for: letters case-folded to
/// lower case, digits as themselves.  Any other key carries no character.
pub open spec fn spec_vk_to_char(vk: u32) -> Option<char> {
    if 0x41 <= vk <= 0x5A {
        Some((((vk - 0x41 + 0x61) as u8) as char))
    } else if 0x30 <= vk <= 0x39 {
        Some(((vk as u8) as char))
    } else {
        None
    }
}

pub fn vk_to_char(vk: u32) -> (r: Option<char>)
    ensures
        r == spec_vk_to_char(vk),
{
    if 0x41 <= vk && vk <= 0x5A {
        Some(((vk - 0x41 + 0x61) as u8) as char)
    } else if 0x30 <= vk && vk <= 0x39 {
        Some((vk as u8) as char)
    } else {
        None
    }
}

/// Everything one event changes: the configuration, the modifier state, the
/// engine buffer, the swallow decision and the emission to synthesize.
pub struct GatewayOutcome {
    pub cfg: Config,
    pub ctrl_pressed: bool,
    pub buffer: Seq<char>,
    pub swallow: bool,
    pub emit: Option<Emission>,
}

/// The gateway's transition for one event.  Injected events pass through
/// untouched; key-up maintains the modifier state; backspace-down pops the
/// buffer for bookkeeping and passes through; the language hotkey, checked
/// before any transliteration, toggles and swallows; in target-language mode
/// a letter or digit runs the engine, and a resolved match is swallowed.
pub open spec fn spec_gateway(
    t: RuleTable,
    cfg: Config,
    mods: ModifierState,
    buf: Seq<char>,
    ev: KeyEvent,
) -> GatewayOutcome {
    if ev.injected {
        GatewayOutcome {
            cfg,
            ctrl_pressed: mods.ctrl_pressed,
            buffer: buf,
            swallow: false,
            emit: None,
        }
    } else if ev.transition is Up {
        GatewayOutcome {
            cfg,
            ctrl_pressed: if ev.vk_code == VK_CONTROL {
                false
            } else {
                mods.ctrl_pressed
            },
            buffer: buf,
            swallow: false,
            emit: None,
        }
    } else {
        let ctrl1 = if ev.vk_code == VK_CONTROL {
            true
        } else {
            mods.ctrl_pressed
        };
        if ev.vk_code == VK_BACK {
            GatewayOutcome {
                cfg,
                ctrl_pressed: ctrl1,
                buffer: if buf.len() > 0 {
                    buf.drop_last()
                } else {
                    buf
                },
                swallow: false,
                emit: None,
            }
        } else if cfg.enabled && cfg.hotkey_enabled && ev.vk_code == VK_SPACE && ctrl1 {
            GatewayOutcome {
                cfg: Config {
                    enabled: cfg.enabled,
                    active_language: spec_other_language(cfg.active_language),
                    hotkey_enabled: cfg.hotkey_enabled,
                    intercept_all: cfg.intercept_all,
                },
                ctrl_pressed: ctrl1,
                buffer: buf,
                swallow: true,
                emit: None,
            }
        } else if cfg.enabled && cfg.active_language is Bangla && cfg.intercept_all
            && spec_vk_to_char(ev.vk_code) is Some {
            let step = spec_step(t, buf, spec_vk_to_char(ev.vk_code).unwrap());
            GatewayOutcome {
                cfg,
                ctrl_pressed: ctrl1,
                buffer: step.buffer,
                swallow: step.emit is Some,
                emit: step.emit,
            }
        } else {
            GatewayOutcome { cfg, ctrl_pressed: ctrl1, buffer: buf, swallow: false, emit: None }
        }
    }
}

/// Decides one raw event: updates the configuration, modifier state and
/// buffer, and answers swallow or propagate with the replacement to
/// synthesize, exactly as `spec_gateway` lays down.  An injected event is
/// always propagated and changes nothing.
pub fn handle_event(
    t: &RuleTable,
    cfg: &mut Config,
    mods: &mut ModifierState,
    buf: &mut InputBuffer,
    ev: KeyEvent,
) -> (r: Response)
    requires
        old(buf).wf(),
    ensures
        final(buf).wf(),
        ({
            let o = spec_gateway(*t, *old(cfg), *old(mods), old(buf)@, ev);
            &&& *final(cfg) == o.cfg
            &&& final(mods).ctrl_pressed == o.ctrl_pressed
            &&& final(buf)@ == o.buffer
            &&& r.swallow == o.swallow
            &&& match r.replacement {
                Some(rep) => o.emit == Some(rep.emission()),
                None => o.emit is None,
            }
        }),
        r.replacement is Some ==> r.swallow,
        ev.injected ==> !r.swallow && r.replacement is None && *final(cfg) == *old(cfg)
            && *final(mods) == *old(mods) && final(buf)@ == old(buf)@,
{
    if ev.injected {
        return Response { swallow: false, replacement: None };
    }
    match ev.transition {
        Transition::Up => {
            if ev.vk_code == VK_CONTROL {
                mods.ctrl_pressed = false;
            }
            Response { swallow: false, replacement: None }
        },
        Transition::Down => {
            if ev.vk_code == VK_CONTROL {
                mods.ctrl_pressed = true;
            }
            if ev.vk_code == VK_BACK {
                buf.pop_newest();
                return Response { swallow: false, replacement: None };
            }
            if cfg.enabled && cfg.hotkey_enabled && ev.vk_code == VK_SPACE && mods.ctrl_pressed {
                let new_language = match cfg.active_language {
                    Language::Bangla => Language::English,
                    Language::English => Language::Bangla,
                };
                cfg.active_language = new_language;
                return Response { swallow: true, replacement: None };
            }
            if cfg.enabled && cfg.active_language == Language::Bangla && cfg.intercept_all {
                if let Some(c) = vk_to_char(ev.vk_code) {
                    let resolved = process_key(t, buf, c);
                    return match resolved {
                        Some(rep) => Response { swallow: true, replacement: Some(rep) },
                        None => Response { swallow: false, replacement: None },
                    };
                }
            }
            Response { swallow: false, replacement: None }
        },
    }
}

/// Control-down followed by space-down, with the keyboard enabled and the
/// hotkey permitted, toggles the active language exactly once — the control
/// event changes nothing but the modifier state, the space event flips the
/// language — and the space event is swallowed without reaching the engine.
pub proof fn lemma_hotkey_toggles_once(
    t: RuleTable,
    cfg: Config,
    mods: ModifierState,
    buf: Seq<char>,
)
    requires
        cfg.enabled,
        cfg.hotkey_enabled,
    ensures
        ({
            let ctrl_down = KeyEvent {
                vk_code: VK_CONTROL,
                transition: Transition::Down,
                injected: false,
            };
            let space_down = KeyEvent {
                vk_code: VK_SPACE,
                transition: Transition::Down,
                injected: false,
            };
            let o1 = spec_gateway(t, cfg, mods, buf, ctrl_down);
            let o2 = spec_gateway(
                t,
                o1.cfg,
                ModifierState { ctrl_pressed: o1.ctrl_pressed },
                o1.buffer,
                space_down,
            );
            &&& o1.cfg == cfg
            &&& o1.buffer == buf
            &&& o1.ctrl_pressed
            &&& o2.cfg.active_language == spec_other_language(cfg.active_language)
            &&& o2.cfg.active_language != cfg.active_language
            &&& o2.swallow
            &&& o2.emit is None
            &&& o2.buffer == buf
        }),
{
}

/// A space-down without control held never toggles the language, whatever
/// the rest of the configuration says.
pub proof fn lemma_space_alone_does_not_toggle(
    t: RuleTable,
    cfg: Config,
    mods: ModifierState,
    buf: Seq<char>,
    injected: bool,
)
    requires
        !mods.ctrl_pressed,
    ensures
        ({
            let space_down = KeyEvent { vk_code: VK_SPACE, transition: Transition::Down, injected };
            spec_gateway(t, cfg, mods, buf, space_down).cfg == cfg
        }),
{
}

} // verus!
