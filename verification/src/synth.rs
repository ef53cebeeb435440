//! The input synthesizer's plan: the exact sequence of synthetic key events
//! and delays that executes a `Replacement`.
//!
//! Erasure comes first — one backspace press/release pair per character to
//! erase, each followed by a short fixed delay so the focused application's
//! input queue drains — then, if there is text, each codepoint as a
//! press/release pair in left-to-right order, again separated by short
//! delays.  The delays are a protocol requirement for ordering, not
//! incidental latency.  Every synthetic key event is tagged as injected, so
//! the gateway recognizes and passes its own output.  The unverified shell
//! only walks the plan and performs each step.

use vstd::prelude::*;
use crate::engine::Replacement;
use crate::engine::spec_resolve;
use crate::engine::spec_short_vowel_sign;
use crate::engine::lemma_dependent_vowel_combines;
use crate::rules::RuleTable;
use vstd::string::*;

verus! {

/// Delay after each synthetic backspace, and before the inserted text.
pub const ERASE_DELAY_MS: u64 = 5;

/// Delay after each synthetic text codepoint.
pub const INSERT_DELAY_MS: u64 = 1;

/// What a synthetic key event carries: a backspace, or one codepoint.
#[derive(Clone, Copy, PartialEq, Eq, Structural, Debug)]
pub enum SynthKey {
    Backspace,
    Text(char),
}

/// One synthetic key transition, tagged as injected.
#[derive(Clone, Copy, PartialEq, Eq, Structural, Debug)]
pub struct SynthEvent {
    pub key: SynthKey,
    pub press: bool,
    pub injected: bool,
}

/// One step of the synthesis plan: a key transition or a pause.
#[derive(Clone, Copy, PartialEq, Eq, Structural, Debug)]
pub enum SynthStep {
    Key(SynthEvent),
    Delay(u64),
}

pub open spec fn step_injected(s: SynthStep) -> bool {
    match s {
        SynthStep::Key(e) => e.injected,
        SynthStep::Delay(_) => true,
    }
}

/// Every key event of the sequence is tagged as injected.
pub open spec fn all_injected(steps: Seq<SynthStep>) -> bool {
    forall|i: int| 0 <= i < steps.len() ==> step_injected(#[trigger] steps[i])
}

/// One backspace: press, release, pause.
pub open spec fn backspace_block() -> Seq<SynthStep> {
    seq![
        SynthStep::Key(SynthEvent { key: SynthKey::Backspace, press: true, injected: true }),
        SynthStep::Key(SynthEvent { key: SynthKey::Backspace, press: false, injected: true }),
        SynthStep::Delay(ERASE_DELAY_MS),
    ]
}

pub open spec fn backspace_steps(n: nat) -> Seq<SynthStep>
    decreases n,
{
    if n == 0 {
        Seq::<SynthStep>::empty()
    } else {
        backspace_steps((n - 1) as nat) + backspace_block()
    }
}

/// One codepoint: press, release, pause.
pub open spec fn char_block(c: char) -> Seq<SynthStep> {
    seq![
        SynthStep::Key(SynthEvent { key: SynthKey::Text(c), press: true, injected: true }),
        SynthStep::Key(SynthEvent { key: SynthKey::Text(c), press: false, injected: true }),
        SynthStep::Delay(INSERT_DELAY_MS),
    ]
}

pub open spec fn text_steps(cs: Seq<char>) -> Seq<SynthStep>
    decreases cs.len(),
{
    if cs.len() == 0 {
        Seq::<SynthStep>::empty()
    } else {
        text_steps(cs.drop_last()) + char_block(cs.last())
    }
}

/// The whole plan for a replacement: the backspaces, then — only if there is
/// text — a pause and the codepoints in order.
pub open spec fn spec_plan(text: Seq<char>, erase: nat) -> Seq<SynthStep> {
    backspace_steps(erase) + (if text.len() > 0 {
        seq![SynthStep::Delay(ERASE_DELAY_MS)] + text_steps(text)
    } else {
        Seq::<SynthStep>::empty()
    })
}

/// Builds the synthesis plan for one replacement.
pub fn build_plan(rep: &Replacement) -> (out: Vec<SynthStep>)
    ensures
        out@ == spec_plan(rep.insert_text@, rep.erase_count as nat),
        all_injected(out@),
{
    let mut out: Vec<SynthStep> = Vec::new();
    let mut i: usize = 0;
    while i < rep.erase_count
        invariant
            0 <= i <= rep.erase_count,
            out@ == backspace_steps(i as nat),
            all_injected(out@),
        decreases rep.erase_count - i,
    {
        out.push(SynthStep::Key(SynthEvent { key: SynthKey::Backspace, press: true, injected: true }));
        out.push(
            SynthStep::Key(SynthEvent { key: SynthKey::Backspace, press: false, injected: true }),
        );
        out.push(SynthStep::Delay(ERASE_DELAY_MS));
        proof {
            assert(out@ =~= backspace_steps((i + 1) as nat));
        }
        i = i + 1;
    }
    let s = rep.insert_text.as_str();
    let n = s.unicode_len();
    if n == 0 {
        proof {
            assert(out@ =~= spec_plan(rep.insert_text@, rep.erase_count as nat));
        }
        return out;
    }
    out.push(SynthStep::Delay(ERASE_DELAY_MS));
    let ghost prefix: Seq<SynthStep> = backspace_steps(rep.erase_count as nat) + seq![
        SynthStep::Delay(ERASE_DELAY_MS),
    ];
    proof {
        assert(out@ =~= prefix + text_steps(s@.take(0)));
    }
    let mut j: usize = 0;
    while j < n
        invariant
            0 <= j <= n,
            n == s@.len(),
            s@ == rep.insert_text@,
            prefix == backspace_steps(rep.erase_count as nat) + seq![
                SynthStep::Delay(ERASE_DELAY_MS),
            ],
            out@ == prefix + text_steps(s@.take(j as int)),
            all_injected(out@),
        decreases n - j,
    {
        let c = s.get_char(j);
        out.push(SynthStep::Key(SynthEvent { key: SynthKey::Text(c), press: true, injected: true }));
        out.push(
            SynthStep::Key(SynthEvent { key: SynthKey::Text(c), press: false, injected: true }),
        );
        out.push(SynthStep::Delay(INSERT_DELAY_MS));
        proof {
            assert(s@.take(j + 1).drop_last() =~= s@.take(j as int));
            assert(s@.take(j + 1).last() == s@[j as int]);
            assert(out@ =~= prefix + text_steps(s@.take(j + 1)));
        }
        j = j + 1;
    }
    proof {
        assert(s@.take(n as int) =~= s@);
        assert(out@ =~= spec_plan(rep.insert_text@, rep.erase_count as nat));
    }
    out
}

/// What one step does to the text the focused application displays: a
/// backspace press removes the last character, a codepoint press appends it,
/// releases and delays change nothing.
pub open spec fn apply_step(shown: Seq<char>, s: SynthStep) -> Seq<char> {
    match s {
        SynthStep::Key(e) => if e.press {
            match e.key {
                SynthKey::Backspace => if shown.len() > 0 {
                    shown.drop_last()
                } else {
                    shown
                },
                SynthKey::Text(c) => shown.push(c),
            }
        } else {
            shown
        },
        SynthStep::Delay(_) => shown,
    }
}

pub open spec fn apply_steps(shown: Seq<char>, steps: Seq<SynthStep>) -> Seq<char>
    decreases steps.len(),
{
    if steps.len() == 0 {
        shown
    } else {
        apply_steps(apply_step(shown, steps[0]), steps.drop_first())
    }
}

proof fn lemma_apply_single(shown: Seq<char>, a: SynthStep)
    ensures
        apply_steps(shown, seq![a]) == apply_step(shown, a),
{
    let s = seq![a];
    assert(s[0] == a);
    assert(s.drop_first() =~= Seq::<SynthStep>::empty());
    assert(apply_steps(shown, s) == apply_steps(apply_step(shown, a), s.drop_first()));
}

proof fn lemma_apply_block(shown: Seq<char>, a: SynthStep, b: SynthStep, c: SynthStep)
    ensures
        apply_steps(shown, seq![a, b, c]) == apply_step(apply_step(apply_step(shown, a), b), c),
{
    let s = seq![a, b, c];
    assert(s[0] == a);
    assert(s.drop_first() =~= seq![b, c]);
    assert(seq![b, c][0] == b);
    assert(seq![b, c].drop_first() =~= seq![c]);
    assert(apply_steps(shown, s) == apply_steps(apply_step(shown, a), seq![b, c]));
    assert(apply_steps(apply_step(shown, a), seq![b, c]) == apply_steps(
        apply_step(apply_step(shown, a), b),
        seq![c],
    ));
    lemma_apply_single(apply_step(apply_step(shown, a), b), c);
}

proof fn lemma_apply_char_block(shown: Seq<char>, c: char)
    ensures
        apply_steps(shown, char_block(c)) == shown.push(c),
{
    let press = SynthStep::Key(SynthEvent { key: SynthKey::Text(c), press: true, injected: true });
    let release = SynthStep::Key(
        SynthEvent { key: SynthKey::Text(c), press: false, injected: true },
    );
    let pause = SynthStep::Delay(INSERT_DELAY_MS);
    assert(char_block(c) =~= seq![press, release, pause]);
    lemma_apply_block(shown, press, release, pause);
}

proof fn lemma_apply_backspace_block(shown: Seq<char>)
    ensures
        apply_steps(shown, backspace_block()) == if shown.len() > 0 {
            shown.drop_last()
        } else {
            shown
        },
{
    let press = SynthStep::Key(SynthEvent { key: SynthKey::Backspace, press: true, injected: true });
    let release = SynthStep::Key(
        SynthEvent { key: SynthKey::Backspace, press: false, injected: true },
    );
    let pause = SynthStep::Delay(ERASE_DELAY_MS);
    assert(backspace_block() =~= seq![press, release, pause]);
    lemma_apply_block(shown, press, release, pause);
}

proof fn lemma_apply_append(shown: Seq<char>, a: Seq<SynthStep>, b: Seq<SynthStep>)
    ensures
        apply_steps(shown, a + b) == apply_steps(apply_steps(shown, a), b),
    decreases a.len(),
{
    if a.len() == 0 {
        assert(a + b =~= b);
    } else {
        assert((a + b)[0] == a[0]);
        assert((a + b).drop_first() =~= a.drop_first() + b);
        lemma_apply_append(apply_step(shown, a[0]), a.drop_first(), b);
    }
}

proof fn lemma_apply_backspaces(shown: Seq<char>, n: nat)
    ensures
        apply_steps(shown, backspace_steps(n)) == if n <= shown.len() {
            shown.take(shown.len() - n)
        } else {
            Seq::<char>::empty()
        },
    decreases n,
{
    if n == 0 {
        assert(shown.take(shown.len() as int) =~= shown);
    } else {
        lemma_apply_backspaces(shown, (n - 1) as nat);
        lemma_apply_append(shown, backspace_steps((n - 1) as nat), backspace_block());
        let mid = apply_steps(shown, backspace_steps((n - 1) as nat));
        lemma_apply_backspace_block(mid);
        if n <= shown.len() {
            assert(mid == shown.take(shown.len() - (n - 1)));
            assert(mid.len() > 0);
            assert(mid.drop_last() =~= shown.take(shown.len() - n));
        } else {
            assert(mid.len() == 0);
        }
    }
}

proof fn lemma_apply_text(shown: Seq<char>, cs: Seq<char>)
    ensures
        apply_steps(shown, text_steps(cs)) == shown + cs,
    decreases cs.len(),
{
    if cs.len() == 0 {
        assert(shown + cs =~= shown);
    } else {
        lemma_apply_text(shown, cs.drop_last());
        lemma_apply_append(shown, text_steps(cs.drop_last()), char_block(cs.last()));
        let mid = apply_steps(shown, text_steps(cs.drop_last()));
        lemma_apply_char_block(mid, cs.last());
        assert(mid.push(cs.last()) =~= shown + cs);
    }
}

/// The net effect of a replacement on displayed text: the last `erase`
/// characters go (all of them, if fewer are displayed), then the text is
/// appended.
pub open spec fn net_effect(shown: Seq<char>, text: Seq<char>, erase: nat) -> Seq<char> {
    if erase <= shown.len() {
        shown.take(shown.len() - erase) + text
    } else {
        text
    }
}

/// Executing the plan of a replacement realizes exactly its net effect on
/// whatever text is displayed.
pub proof fn lemma_plan_realizes_net_effect(shown: Seq<char>, text: Seq<char>, erase: nat)
    ensures
        apply_steps(shown, spec_plan(text, erase)) == net_effect(shown, text, erase),
{
    lemma_apply_backspaces(shown, erase);
    lemma_apply_append(
        shown,
        backspace_steps(erase),
        if text.len() > 0 {
            seq![SynthStep::Delay(ERASE_DELAY_MS)] + text_steps(text)
        } else {
            Seq::<SynthStep>::empty()
        },
    );
    let mid = apply_steps(shown, backspace_steps(erase));
    if text.len() > 0 {
        lemma_apply_append(mid, seq![SynthStep::Delay(ERASE_DELAY_MS)], text_steps(text));
        lemma_apply_single(mid, SynthStep::Delay(ERASE_DELAY_MS));
        lemma_apply_text(mid, text);
    } else {
        assert(mid + text =~= mid);
    }
}

/// The net effect of a short vowel combining after a consonant: with the
/// consonant's glyph displayed and the vowel keystroke echoed after it, the
/// replacement of `lemma_dependent_vowel_combines` erases the echoed vowel
/// and leaves the glyph followed by the dependent sign.
pub proof fn lemma_dependent_vowel_net_effect(t: RuleTable, k: char, v: char, shown: Seq<char>)
    requires
        t.spec_is_consonant_char(k),
        spec_short_vowel_sign(v) is Some,
        t.spec_lookup(seq![k, v]) is None,
    ensures
        net_effect(
            shown.push(v),
            spec_resolve(t, seq![k, v]).unwrap().text,
            spec_resolve(t, seq![k, v]).unwrap().erase,
        ) == shown + spec_short_vowel_sign(v).unwrap(),
{
    lemma_dependent_vowel_combines(t, k, v);
    assert(shown.push(v).take(shown.push(v).len() - 1) =~= shown);
}

} // verus!
