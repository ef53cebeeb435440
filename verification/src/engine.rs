//! The transliteration engine: a bounded buffer of pending Latin characters
//! and longest-trailing-match resolution against the rule table.
//!
//! Each keystroke is appended to the buffer and the trailing one, two and
//! three characters are tried against the table, longest first.  A hit yields
//! a `Replacement`: the text to inject and how many already-typed characters
//! to erase (always the length of the matched candidate).  Two refinements
//! give natural script: a short vowel directly after a buffered consonant
//! becomes its dependent sign (empty for the inherent vowel), and a matched
//! consonant or vowel preceded by a mapped consonant is joined or substituted
//! accordingly.  A word-initial primary vowel is emitted at once, the
//! keystroke staying buffered so a longer match can still supersede it.

use vstd::prelude::*;
use vstd::string::*;
use crate::rules::Glyph;
use crate::rules::RuleTable;

verus! {

/// The buffer is cleared once it would grow beyond this many characters.
pub const BUFFER_LIMIT: usize = 5;

/// What a resolved keystroke asks the synthesizer to do: erase the last
/// `erase_count` characters typed since the buffer was last cleared, then
/// insert `insert_text`.
pub struct Replacement {
    pub insert_text: String,
    pub erase_count: usize,
}

/// Specification-level form of a `Replacement`.
pub struct Emission {
    pub text: Seq<char>,
    pub erase: nat,
}

impl Replacement {
    pub open spec fn emission(self) -> Emission {
        Emission { text: self.insert_text@, erase: self.erase_count as nat }
    }
}

/// The in-progress cluster of Latin characters, owned by the engine.
pub struct InputBuffer {
    pub chars: Vec<char>,
}

impl View for InputBuffer {
    type V = Seq<char>;

    open spec fn view(&self) -> Seq<char> {
        self.chars@
    }
}

impl InputBuffer {
    /// The buffer never exceeds the overflow limit.
    pub open spec fn wf(self) -> bool {
        self.chars@.len() <= BUFFER_LIMIT
    }

    pub fn new() -> (r: InputBuffer)
        ensures
            r.wf(),
            r@ == Seq::<char>::empty(),
    {
        InputBuffer { chars: Vec::new() }
    }

    /// Bookkeeping for a physical backspace: drop the newest character.
    pub fn pop_newest(&mut self)
        requires
            old(self).wf(),
        ensures
            final(self).wf(),
            old(self)@.len() == 0 ==> final(self)@ == old(self)@,
            old(self)@.len() > 0 ==> final(self)@ == old(self)@.drop_last(),
    {
        if self.chars.len() > 0 {
            self.chars.pop();
        }
    }
}

/// The five vowel keys that resolve immediately at the start of a word.
pub open spec fn is_primary_vowel_key(c: char) -> bool {
    c == 'a' || c == 'e' || c == 'i' || c == 'o' || c == 'u'
}

pub fn exec_is_primary_vowel_key(c: char) -> (b: bool)
    ensures
        b == is_primary_vowel_key(c),
{
    match c {
        'a' | 'e' | 'i' | 'o' | 'u' => true,
        _ => false,
    }
}

/// The dependent sign written for a short vowel key typed right after a
/// mapped consonant; the inherent vowel `a` adds nothing.
pub open spec fn spec_short_vowel_sign(c: char) -> Option<Seq<char>> {
    if c == 'a' {
        Some(Seq::<char>::empty())
    } else if c == 'i' {
        Some("ি"@)
    } else if c == 'e' {
        Some("ে"@)
    } else if c == 'u' {
        Some("ু"@)
    } else if c == 'o' {
        Some("ো"@)
    } else {
        None
    }
}

pub fn short_vowel_sign(c: char) -> (r: Option<&'static str>)
    ensures
        match r {
            Some(s) => spec_short_vowel_sign(c) == Some(s@),
            None => spec_short_vowel_sign(c) is None,
        },
{
    proof {
        reveal_strlit("");
        assert(""@ =~= Seq::<char>::empty());
    }
    match c {
        'a' => Some(""),
        'i' => Some("ি"),
        'e' => Some("ে"),
        'u' => Some("ু"),
        'o' => Some("ো"),
        _ => None,
    }
}

/// The dependent form of an independent vowel glyph; the inherent vowel
/// becomes empty, a glyph outside the vowel row is kept as it is.
pub open spec fn spec_dependent_form(g: Seq<char>) -> Seq<char> {
    if g.len() == 1 {
        if g[0] == 'অ' {
            Seq::<char>::empty()
        } else if g[0] == 'আ' {
            "া"@
        } else if g[0] == 'ই' {
            "ি"@
        } else if g[0] == 'ঈ' {
            "ী"@
        } else if g[0] == 'উ' {
            "ু"@
        } else if g[0] == 'ঊ' {
            "ূ"@
        } else if g[0] == 'এ' {
            "ে"@
        } else if g[0] == 'ঐ' {
            "ৈ"@
        } else if g[0] == 'ও' {
            "ো"@
        } else if g[0] == 'ঔ' {
            "ৌ"@
        } else {
            g
        }
    } else {
        g
    }
}

pub fn dependent_form(s: &'static str) -> (r: &'static str)
    ensures
        r@ == spec_dependent_form(s@),
{
    proof {
        reveal_strlit("");
        assert(""@ =~= Seq::<char>::empty());
    }
    let n = s.unicode_len();
    if n == 1 {
        let c = s.get_char(0);
        match c {
            'অ' => "",
            'আ' => "া",
            'ই' => "ি",
            'ঈ' => "ী",
            'উ' => "ু",
            'ঊ' => "ূ",
            'এ' => "ে",
            'ঐ' => "ৈ",
            'ও' => "ো",
            'ঔ' => "ৌ",
            _ => s,
        }
    } else {
        s
    }
}

/// The trailing `len` characters of the buffer.
pub open spec fn tail_key(buf: Seq<char>, len: int) -> Seq<char> {
    buf.subrange(buf.len() - len, buf.len() as int)
}

/// What a general match of the trailing `len` characters inserts: the glyph,
/// adjusted when the character just before the matched span is a mapped
/// consonant (conjunct joining, or the dependent vowel form).
pub open spec fn spec_general_output(t: RuleTable, buf: Seq<char>, len: int, g: Glyph) -> Seq<
    char,
> {
    let start = buf.len() - len;
    let prev_cons = start >= 1 && t.spec_is_consonant_char(buf[start - 1]);
    match g {
        Glyph::Consonant(s) => if prev_cons {
            seq!['্'] + s@
        } else {
            s@
        },
        Glyph::Vowel(s) => if prev_cons {
            spec_dependent_form(s@)
        } else {
            s@
        },
        Glyph::VowelSign(s) => s@,
        Glyph::Digit(s) => s@,
        Glyph::Special(s) => s@,
    }
}

/// A general match of the trailing `len` characters, if the table has one.
pub open spec fn try_general(t: RuleTable, buf: Seq<char>, len: int) -> Option<Emission> {
    if 1 <= len <= buf.len() {
        match t.spec_lookup(tail_key(buf, len)) {
            Some(g) => Some(
                Emission { text: spec_general_output(t, buf, len, g), erase: len as nat },
            ),
            None => None,
        }
    } else {
        None
    }
}

/// The single-character special case: a short vowel key right after a mapped
/// consonant combines at once as its dependent sign.
pub open spec fn try_short_vowel(t: RuleTable, buf: Seq<char>) -> Option<Emission> {
    if buf.len() >= 2 && t.spec_is_consonant_char(buf[buf.len() - 2]) {
        match spec_short_vowel_sign(buf[buf.len() - 1]) {
            Some(s) => Some(Emission { text: s, erase: 1 }),
            None => None,
        }
    } else {
        None
    }
}

/// Resolution of a non-empty buffer: trailing candidates are tried longest
/// first; at length one the dependent-vowel special case precedes the plain
/// table match.  `None` means no match yet.
pub open spec fn spec_resolve(t: RuleTable, buf: Seq<char>) -> Option<Emission> {
    if try_general(t, buf, 3) is Some {
        try_general(t, buf, 3)
    } else if try_general(t, buf, 2) is Some {
        try_general(t, buf, 2)
    } else if try_short_vowel(t, buf) is Some {
        try_short_vowel(t, buf)
    } else {
        try_general(t, buf, 1)
    }
}

/// Builds the replacement for a general match of the trailing `len`
/// characters.
fn general_replacement(t: &RuleTable, buf: &Vec<char>, len: usize, g: Glyph) -> (r: Replacement)
    requires
        1 <= len <= buf@.len(),
    ensures
        r.insert_text@ == spec_general_output(*t, buf@, len as int, g),
        r.erase_count == len,
{
    proof {
        reveal_strlit("্");
        assert("্"@ =~= seq!['্']);
    }
    let start = buf.len() - len;
    let prev_cons = start >= 1 && t.is_consonant_char(buf[start - 1]);
    let text: String = match g {
        Glyph::Consonant(s) => if prev_cons {
            let mut joined = String::from_str("্");
            joined.append(s);
            joined
        } else {
            String::from_str(s)
        },
        Glyph::Vowel(s) => if prev_cons {
            String::from_str(dependent_form(s))
        } else {
            String::from_str(s)
        },
        Glyph::VowelSign(s) => String::from_str(s),
        Glyph::Digit(s) => String::from_str(s),
        Glyph::Special(s) => String::from_str(s),
    };
    Replacement { insert_text: text, erase_count: len }
}

/// Resolves a non-empty buffer against the table, longest candidate first.
pub fn resolve(t: &RuleTable, buf: &Vec<char>) -> (r: Option<Replacement>)
    requires
        buf@.len() >= 1,
    ensures
        match r {
            Some(rep) => spec_resolve(*t, buf@) == Some(rep.emission()),
            None => spec_resolve(*t, buf@) is None,
        },
{
    let n = buf.len();
    if n >= 3 {
        if let Some(g) = t.lookup_range(buf, n - 3, n) {
            return Some(general_replacement(t, buf, 3, g));
        }
    }
    if n >= 2 {
        if let Some(g) = t.lookup_range(buf, n - 2, n) {
            return Some(general_replacement(t, buf, 2, g));
        }
    }
    if n >= 2 && t.is_consonant_char(buf[n - 2]) {
        if let Some(sign) = short_vowel_sign(buf[n - 1]) {
            return Some(Replacement { insert_text: String::from_str(sign), erase_count: 1 });
        }
    }
    if let Some(g) = t.lookup_range(buf, n - 1, n) {
        return Some(general_replacement(t, buf, 1, g));
    }
    None
}

/// Whether a keystroke takes the word-initial vowel fast path: empty buffer,
/// one of the five primary vowel keys, mapped as a vowel.
pub open spec fn spec_fast_path(t: RuleTable, buf: Seq<char>, key: char) -> bool {
    buf.len() == 0 && is_primary_vowel_key(key) && (match t.spec_lookup(seq![key]) {
        Some(g) => g is Vowel,
        None => false,
    })
}

/// One keystroke: the new buffer contents and what, if anything, is emitted.
pub struct StepResult {
    pub buffer: Seq<char>,
    pub emit: Option<Emission>,
}

/// The engine's transition for one keystroke.  The fast path emits the
/// independent vowel while keeping the keystroke buffered; otherwise the
/// keystroke is appended, an overflowing buffer is dropped, and a resolved
/// match empties the buffer while a miss keeps it.
pub open spec fn spec_step(t: RuleTable, buf: Seq<char>, key: char) -> StepResult {
    if spec_fast_path(t, buf, key) {
        StepResult {
            buffer: seq![key],
            emit: Some(
                Emission {
                    text: match t.spec_lookup(seq![key]) {
                        Some(g) => g.spec_text(),
                        None => Seq::<char>::empty(),
                    },
                    erase: 1,
                },
            ),
        }
    } else {
        let nb = buf.push(key);
        if nb.len() > BUFFER_LIMIT {
            StepResult { buffer: Seq::<char>::empty(), emit: None }
        } else {
            match spec_resolve(t, nb) {
                Some(e) => StepResult { buffer: Seq::<char>::empty(), emit: Some(e) },
                None => StepResult { buffer: nb, emit: None },
            }
        }
    }
}

/// Feeds one keystroke to the engine.
pub fn process_key(t: &RuleTable, buf: &mut InputBuffer, key: char) -> (r: Option<Replacement>)
    requires
        old(buf).wf(),
    ensures
        final(buf).wf(),
        final(buf)@ == spec_step(*t, old(buf)@, key).buffer,
        match r {
            Some(rep) => spec_step(*t, old(buf)@, key).emit == Some(rep.emission()),
            None => spec_step(*t, old(buf)@, key).emit is None,
        },
{
    if buf.chars.len() == 0 && exec_is_primary_vowel_key(key) {
        let looked = t.lookup_char(key);
        if let Some(g) = looked {
            if let Glyph::Vowel(s) = g {
                buf.chars.push(key);
                proof {
                    assert(old(buf)@.push(key) =~= seq![key]);
                }
                return Some(
                    Replacement { insert_text: String::from_str(s), erase_count: 1 },
                );
            }
        }
    }
    buf.chars.push(key);
    if buf.chars.len() > BUFFER_LIMIT {
        buf.chars.clear();
        return None;
    }
    match resolve(t, &buf.chars) {
        Some(rep) => {
            buf.chars.clear();
            Some(rep)
        },
        None => None,
    }
}

/// Whether the candidate of length `len` would fire: at length one either the
/// dependent-vowel special case or a plain table match, above that a plain
/// table match.
pub open spec fn candidate_fires(t: RuleTable, buf: Seq<char>, len: int) -> bool {
    if len == 1 {
        try_short_vowel(t, buf) is Some || try_general(t, buf, 1) is Some
    } else {
        try_general(t, buf, len) is Some
    }
}

/// Every keystroke typed on an empty buffer whose single character is mapped
/// to a vowel glyph emits that independent glyph with one character erased,
/// whether it takes the fast path or the general scan.
pub proof fn lemma_initial_vowel(t: RuleTable, key: char)
    requires
        t.spec_lookup(seq![key]) is Some,
        t.spec_lookup(seq![key]).unwrap() is Vowel,
    ensures
        spec_step(t, Seq::<char>::empty(), key).emit == Some(
            (Emission { text: t.spec_lookup(seq![key]).unwrap().spec_text(), erase: 1 }),
        ),
{
    let empty = Seq::<char>::empty();
    if spec_fast_path(t, empty, key) {
    } else {
        let nb = empty.push(key);
        assert(nb =~= seq![key]);
        assert(tail_key(nb, 1) =~= seq![key]);
        assert(try_general(t, nb, 3) is None);
        assert(try_general(t, nb, 2) is None);
        assert(try_short_vowel(t, nb) is None);
    }
}

/// A resolution matches the longest firing trailing candidate, and its erase
/// count equals exactly that candidate's length.
pub proof fn lemma_longest_match(t: RuleTable, buf: Seq<char>)
    requires
        buf.len() >= 1,
        spec_resolve(t, buf) is Some,
    ensures
        ({
            let e = spec_resolve(t, buf).unwrap();
            &&& 1 <= e.erase <= 3
            &&& e.erase <= buf.len()
            &&& candidate_fires(t, buf, e.erase as int)
            &&& forall|l: int|
                e.erase < l <= 3 && l <= buf.len() ==> !candidate_fires(t, buf, l)
        }),
{
}

/// A short vowel key typed right after a buffered mapped consonant, when the
/// two together are no rule key, combines at once: the emission is the
/// dependent sign and erases the one vowel keystroke.
pub proof fn lemma_dependent_vowel_combines(t: RuleTable, k: char, v: char)
    requires
        t.spec_is_consonant_char(k),
        spec_short_vowel_sign(v) is Some,
        t.spec_lookup(seq![k, v]) is None,
    ensures
        spec_resolve(t, seq![k, v]) == Some(
            (Emission { text: spec_short_vowel_sign(v).unwrap(), erase: 1 }),
        ),
{
    let buf = seq![k, v];
    assert(tail_key(buf, 2) =~= buf);
    assert(try_general(t, buf, 3) is None);
    assert(try_general(t, buf, 2) is None);
}

/// The inherent vowel after a buffered consonant is elided: the emission
/// inserts nothing, the bare consonant glyph already carrying the sound.
pub proof fn lemma_inherent_vowel_elision(t: RuleTable, k: char)
    requires
        t.spec_is_consonant_char(k),
        t.spec_lookup(seq![k, 'a']) is None,
    ensures
        spec_resolve(t, seq![k, 'a']) == Some(
            (Emission { text: Seq::<char>::empty(), erase: 1 }),
        ),
{
    lemma_dependent_vowel_combines(t, k, 'a');
}

/// An emission never erases more than was typed since the buffer was last
/// cleared: at most the pending characters plus the keystroke itself, and
/// never more than the longest rule key.
pub proof fn lemma_erase_bounded(t: RuleTable, buf: Seq<char>, key: char)
    requires
        spec_step(t, buf, key).emit is Some,
    ensures
        1 <= spec_step(t, buf, key).emit.unwrap().erase <= buf.len() + 1,
        spec_step(t, buf, key).emit.unwrap().erase <= 3,
{
}

/// The buffer contents after feeding `keys` one by one.
pub open spec fn spec_run(t: RuleTable, buf: Seq<char>, keys: Seq<char>) -> Seq<char>
    decreases keys.len(),
{
    if keys.len() == 0 {
        buf
    } else {
        spec_run(t, spec_step(t, buf, keys[0]).buffer, keys.drop_first())
    }
}

/// Whether feeding `keys` one by one emits no replacement at any point.
pub open spec fn run_emits_nothing(t: RuleTable, buf: Seq<char>, keys: Seq<char>) -> bool
    decreases keys.len(),
{
    keys.len() == 0 || (spec_step(t, buf, keys[0]).emit is None && run_emits_nothing(
        t,
        spec_step(t, buf, keys[0]).buffer,
        keys.drop_first(),
    ))
}

/// No run of one to three consecutive characters of `keys` is a rule key.
pub open spec fn never_matching(t: RuleTable, keys: Seq<char>) -> bool {
    forall|i: int, j: int|
        0 <= i <= j <= keys.len() && 1 <= j - i <= 3 ==> t.spec_lookup(
            #[trigger] keys.subrange(i, j),
        ) is None
}

proof fn lemma_never_matching_suffix(t: RuleTable, keys: Seq<char>, i: int)
    requires
        keys.len() == BUFFER_LIMIT + 1,
        never_matching(t, keys),
        0 <= i <= BUFFER_LIMIT,
    ensures
        run_emits_nothing(t, keys.subrange(0, i), keys.skip(i)),
        spec_run(t, keys.subrange(0, i), keys.skip(i)) == Seq::<char>::empty(),
    decreases keys.len() - i,
{
    let b = keys.subrange(0, i);
    let key = keys[i];
    assert(keys.skip(i)[0] == key);
    assert(seq![key] =~= keys.subrange(i, i + 1));
    assert(t.spec_lookup(seq![key]) is None);
    assert(!spec_fast_path(t, b, key));
    let nb = b.push(key);
    assert(nb =~= keys.subrange(0, i + 1));
    let step = spec_step(t, b, key);
    if i == BUFFER_LIMIT {
        assert(nb.len() > BUFFER_LIMIT);
        assert(step.buffer =~= Seq::<char>::empty());
        assert(step.emit is None);
        assert(keys.skip(i).drop_first() =~= keys.skip(i + 1));
        assert(keys.skip(i + 1).len() == 0);
        assert(run_emits_nothing(t, step.buffer, keys.skip(i).drop_first()));
        assert(spec_run(t, step.buffer, keys.skip(i).drop_first()) == Seq::<char>::empty());
    } else {
        assert(nb.len() <= BUFFER_LIMIT);
        if nb.len() >= 3 {
            assert(tail_key(nb, 3) =~= keys.subrange(i - 2, i + 1));
        }
        if nb.len() >= 2 {
            assert(tail_key(nb, 2) =~= keys.subrange(i - 1, i + 1));
            assert(seq![keys[i - 1]] =~= keys.subrange(i - 1, i));
            assert(!t.spec_is_consonant_char(nb[nb.len() - 2]));
        }
        assert(tail_key(nb, 1) =~= keys.subrange(i, i + 1));
        assert(spec_resolve(t, nb) is None);
        assert(step.emit is None);
        assert(step.buffer == nb);
        lemma_never_matching_suffix(t, keys, i + 1);
        assert(keys.skip(i).drop_first() =~= keys.skip(i + 1));
    }
}

/// Typing one more character than the buffer holds, none of whose runs match
/// any rule, emits no replacement at any point and leaves the buffer empty:
/// the overflowing keystroke drops the accumulated cluster, and the next
/// keystroke starts from a fresh buffer.
pub proof fn lemma_unmatched_run_clears(t: RuleTable, keys: Seq<char>)
    requires
        keys.len() == BUFFER_LIMIT + 1,
        never_matching(t, keys),
    ensures
        run_emits_nothing(t, Seq::<char>::empty(), keys),
        spec_run(t, Seq::<char>::empty(), keys) == Seq::<char>::empty(),
{
    lemma_never_matching_suffix(t, keys, 0);
    assert(keys.subrange(0, 0) =~= Seq::<char>::empty());
    assert(keys.skip(0) =~= keys);
}

} // verus!
