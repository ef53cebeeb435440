//! Core of a system-wide phonetic keyboard for Bangla.
//!
//! Latin keystrokes are collected in a small per-word buffer and resolved
//! against a phonetic rule table by longest trailing match; a resolution is a
//! `Replacement` instruction (text to insert, characters to erase) that an
//! unverified shell executes as synthetic key events.  The modules follow the
//! pipeline: `rules` (the static table), `engine` (buffer and matching),
//! `gateway` (per-event decisions: swallow or propagate, hotkey, modifiers),
//! `synth` (the synthetic-event plan for a replacement), and `preview`
//! (search and category queries over the table for a settings panel).

pub mod rules;
pub mod engine;
pub mod gateway;
pub mod synth;
pub mod preview;
