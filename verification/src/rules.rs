//! The phonetic rule table: Latin key sequences mapped to tagged glyphs.
//!
//! A rule key is one to three Latin characters; its value is a glyph of the
//! target script tagged with its category.  The table is built once, holds no
//! duplicate keys, and is read by first-match lookup (with distinct keys the
//! first match is the only one).

use vstd::prelude::*;
use vstd::string::*;

verus! {

/// A glyph of the target script, tagged with its phonetic category.
#[derive(Clone, Copy)]
pub enum Glyph {
    Vowel(&'static str),
    Consonant(&'static str),
    VowelSign(&'static str),
    Digit(&'static str),
    Special(&'static str),
}

impl Glyph {
    /// The glyph's text, independent of its category.
    pub open spec fn spec_text(self) -> Seq<char> {
        match self {
            Glyph::Vowel(s) => s@,
            Glyph::Consonant(s) => s@,
            Glyph::VowelSign(s) => s@,
            Glyph::Digit(s) => s@,
            Glyph::Special(s) => s@,
        }
    }

    pub fn text(self) -> (r: &'static str)
        ensures
            r@ == self.spec_text(),
    {
        match self {
            Glyph::Vowel(s) => s,
            Glyph::Consonant(s) => s,
            Glyph::VowelSign(s) => s,
            Glyph::Digit(s) => s,
            Glyph::Special(s) => s,
        }
    }

    pub fn is_consonant(self) -> (b: bool)
        ensures
            b == (self is Consonant),
    {
        match self {
            Glyph::Consonant(_) => true,
            _ => false,
        }
    }
}

/// One table entry: a Latin key of one to three characters and its glyph.
#[derive(Clone, Copy)]
pub struct PhoneticRule {
    pub key: &'static str,
    pub glyph: Glyph,
}

/// Shortest and longest rule key the engine considers.
pub const MIN_KEY_LEN: usize = 1;

pub const MAX_KEY_LEN: usize = 3;

/// First-match lookup over a sequence of rules.
pub open spec fn lookup_in(rules: Seq<PhoneticRule>, key: Seq<char>) -> Option<Glyph>
    decreases rules.len(),
{
    if rules.len() == 0 {
        None
    } else if rules[0].key@ == key {
        Some(rules[0].glyph)
    } else {
        lookup_in(rules.drop_first(), key)
    }
}

pub proof fn lemma_lookup_none_iff(rules: Seq<PhoneticRule>, key: Seq<char>)
    ensures
        (lookup_in(rules, key) is None) <==> (forall|i: int|
            0 <= i < rules.len() ==> (#[trigger] rules[i]).key@ != key),
    decreases rules.len(),
{
    if rules.len() > 0 {
        lemma_lookup_none_iff(rules.drop_first(), key);
        assert(forall|i: int|
            1 <= i < rules.len() ==> (#[trigger] rules[i]) == rules.drop_first()[i - 1]);
        assert(forall|j: int|
            0 <= j < rules.drop_first().len() ==> (#[trigger] rules.drop_first()[j]) == rules[j
                + 1]);
    }
}

proof fn lemma_lookup_skip_step(rules: Seq<PhoneticRule>, key: Seq<char>, i: int)
    requires
        0 <= i < rules.len(),
        rules[i].key@ != key,
    ensures
        lookup_in(rules.skip(i), key) == lookup_in(rules.skip(i + 1), key),
{
    assert(rules.skip(i).len() == rules.len() - i);
    assert(rules.skip(i)[0] == rules[i]);
    assert(rules.skip(i).drop_first() =~= rules.skip(i + 1));
}

/// Looking a key up after appending one rule: an earlier match is kept,
/// otherwise the new rule answers for its own key.
pub proof fn lemma_lookup_push(rules: Seq<PhoneticRule>, r: PhoneticRule, key: Seq<char>)
    ensures
        lookup_in(rules.push(r), key) == (if lookup_in(rules, key) is Some {
            lookup_in(rules, key)
        } else if r.key@ == key {
            Some(r.glyph)
        } else {
            Option::<Glyph>::None
        }),
    decreases rules.len(),
{
    if rules.len() == 0 {
        assert(rules.push(r)[0] == r);
        assert(rules.push(r).drop_first() =~= Seq::<PhoneticRule>::empty());
    } else {
        assert(rules.push(r)[0] == rules[0]);
        assert(rules.push(r).drop_first() =~= rules.drop_first().push(r));
        lemma_lookup_push(rules.drop_first(), r, key);
    }
}

/// The rule table the engine and the preview read.
pub struct RuleTable {
    pub rules: Vec<PhoneticRule>,
}

impl RuleTable {
    /// Every key is one to three characters long, and no key repeats.
    pub open spec fn wf(self) -> bool {
        &&& forall|i: int|
            0 <= i < self.rules@.len() ==> MIN_KEY_LEN
                <= (#[trigger] self.rules@[i]).key@.len() <= MAX_KEY_LEN
        &&& forall|i: int, j: int|
            0 <= i < j < self.rules@.len() ==> (#[trigger] self.rules@[i]).key@
                != (#[trigger] self.rules@[j]).key@
    }

    pub open spec fn spec_lookup(self, key: Seq<char>) -> Option<Glyph> {
        lookup_in(self.rules@, key)
    }

    /// Whether a single character is mapped as a consonant.
    pub open spec fn spec_is_consonant_char(self, c: char) -> bool {
        match self.spec_lookup(seq![c]) {
            Some(g) => g is Consonant,
            None => false,
        }
    }

    pub fn new() -> (r: RuleTable)
        ensures
            r.wf(),
            r.rules@.len() == 0,
    {
        RuleTable { rules: Vec::new() }
    }

    /// Add one rule.  A key of the wrong length, or one already present, is
    /// rejected, which keeps the table well formed.
    pub fn insert(&mut self, key: &'static str, glyph: Glyph) -> (added: bool)
        requires
            old(self).wf(),
        ensures
            final(self).wf(),
            added == (MIN_KEY_LEN <= key@.len() <= MAX_KEY_LEN && old(self).spec_lookup(key@)
                is None),
            added ==> final(self).rules@ == old(self).rules@.push((PhoneticRule { key, glyph })),
            !added ==> final(self).rules@ == old(self).rules@,
    {
        let klen = key.unicode_len();
        if klen < MIN_KEY_LEN || klen > MAX_KEY_LEN {
            return false;
        }
        if self.lookup_str(key).is_some() {
            return false;
        }
        proof {
            lemma_lookup_none_iff(self.rules@, key@);
        }
        self.rules.push(PhoneticRule { key, glyph });
        true
    }

    /// Add one rule, keeping every association already present: a key of
    /// acceptable length is afterwards mapped, and earlier lookups are
    /// unchanged.
    fn put(&mut self, key: &'static str, glyph: Glyph)
        requires
            old(self).wf(),
        ensures
            final(self).wf(),
            final(self).rules@.len() >= old(self).rules@.len(),
            MIN_KEY_LEN <= key@.len() <= MAX_KEY_LEN ==> final(self).spec_lookup(key@) is Some,
            forall|k: Seq<char>|
                old(self).spec_lookup(k) is Some ==> final(self).spec_lookup(k) == old(
                    self,
                ).spec_lookup(k),
    {
        let ghost prior = self.rules@;
        let added = self.insert(key, glyph);
        proof {
            if added {
                assert forall|k: Seq<char>| lookup_in(prior, k) is Some implies lookup_in(
                    self.rules@,
                    k,
                ) == lookup_in(prior, k) by {
                    lemma_lookup_push(prior, (PhoneticRule { key, glyph }), k);
                }
                lemma_lookup_push(prior, (PhoneticRule { key, glyph }), key@);
            }
        }
    }

    /// First-match lookup of a whole string key.
    pub fn lookup_str(&self, key: &str) -> (r: Option<Glyph>)
        ensures
            r == self.spec_lookup(key@),
    {
        let n = self.rules.len();
        let mut i: usize = 0;
        proof {
            assert(self.rules@.skip(0) =~= self.rules@);
        }
        while i < n
            invariant
                n == self.rules@.len(),
                0 <= i <= n,
                lookup_in(self.rules@, key@) == lookup_in(self.rules@.skip(i as int), key@),
            decreases n - i,
        {
            let rule = self.rules[i];
            if str_eq(rule.key, key) {
                proof {
                    assert(self.rules@.skip(i as int)[0] == self.rules@[i as int]);
                }
                return Some(rule.glyph);
            }
            proof {
                lemma_lookup_skip_step(self.rules@, key@, i as int);
            }
            i = i + 1;
        }
        proof {
            assert(self.rules@.skip(n as int).len() == 0);
        }
        None
    }

    /// First-match lookup of the characters `buf[start..end]`.
    pub fn lookup_range(&self, buf: &Vec<char>, start: usize, end: usize) -> (r: Option<Glyph>)
        requires
            start <= end <= buf@.len(),
        ensures
            r == self.spec_lookup(buf@.subrange(start as int, end as int)),
    {
        let ghost key: Seq<char> = buf@.subrange(start as int, end as int);
        let n = self.rules.len();
        let mut i: usize = 0;
        proof {
            assert(self.rules@.skip(0) =~= self.rules@);
        }
        while i < n
            invariant
                n == self.rules@.len(),
                0 <= i <= n,
                start <= end <= buf@.len(),
                key == buf@.subrange(start as int, end as int),
                lookup_in(self.rules@, key) == lookup_in(self.rules@.skip(i as int), key),
            decreases n - i,
        {
            let rule = self.rules[i];
            if key_eq_range(rule.key, buf, start, end) {
                proof {
                    assert(self.rules@.skip(i as int)[0] == self.rules@[i as int]);
                }
                return Some(rule.glyph);
            }
            proof {
                lemma_lookup_skip_step(self.rules@, key, i as int);
            }
            i = i + 1;
        }
        proof {
            assert(self.rules@.skip(n as int).len() == 0);
        }
        None
    }

    /// First-match lookup of a single character.
    pub fn lookup_char(&self, c: char) -> (r: Option<Glyph>)
        ensures
            r == self.spec_lookup(seq![c]),
    {
        let single: Vec<char> = vec![c];
        proof {
            assert(single@.subrange(0, 1) =~= seq![c]);
        }
        self.lookup_range(&single, 0, 1)
    }

    /// Whether `c`, alone, is mapped as a consonant.
    pub fn is_consonant_char(&self, c: char) -> (b: bool)
        ensures
            b == self.spec_is_consonant_char(c),
    {
        match self.lookup_char(c) {
            Some(g) => g.is_consonant(),
            None => false,
        }
    }
}

/// Character-wise equality of two string slices.
pub fn str_eq(a: &str, b: &str) -> (r: bool)
    ensures
        r == (a@ == b@),
{
    let alen = a.unicode_len();
    let blen = b.unicode_len();
    if alen != blen {
        return false;
    }
    let mut i: usize = 0;
    while i < alen
        invariant
            alen == a@.len(),
            alen == b@.len(),
            0 <= i <= alen,
            forall|j: int| 0 <= j < i ==> a@[j] == b@[j],
        decreases alen - i,
    {
        if a.get_char(i) != b.get_char(i) {
            return false;
        }
        i = i + 1;
    }
    proof {
        assert(a@ =~= b@);
    }
    true
}

/// Character-wise equality of a string slice and `buf[start..end]`.
pub fn key_eq_range(key: &str, buf: &Vec<char>, start: usize, end: usize) -> (r: bool)
    requires
        start <= end <= buf@.len(),
    ensures
        r == (key@ == buf@.subrange(start as int, end as int)),
{
    let klen = key.unicode_len();
    if klen != end - start {
        return false;
    }
    let mut i: usize = 0;
    while i < klen
        invariant
            klen == key@.len(),
            klen == end - start,
            start <= end <= buf@.len(),
            0 <= i <= klen,
            forall|j: int| 0 <= j < i ==> key@[j] == buf@[start + j],
        decreases klen - i,
    {
        if key.get_char(i) != buf[start + i] {
            return false;
        }
        i = i + 1;
    }
    proof {
        assert(key@ =~= buf@.subrange(start as int, end as int));
    }
    true
}


/// The vowel row: long forms on doubled or capital keys, and the two
/// directly forceable dependent signs.
fn add_vowel_rules(t: &mut RuleTable)
    requires
        old(t).wf(),
    ensures
        final(t).wf(),
        final(t).rules@.len() >= old(t).rules@.len(),
        forall|k: Seq<char>|
            old(t).spec_lookup(k) is Some ==> final(t).spec_lookup(k) == old(t).spec_lookup(k),
{
    t.put("aa", Glyph::Vowel("আ"));
    t.put("A", Glyph::Vowel("আ"));
    t.put("ii", Glyph::Vowel("ঈ"));
    t.put("I", Glyph::Vowel("ঈ"));
    t.put("uu", Glyph::Vowel("ঊ"));
    t.put("U", Glyph::Vowel("ঊ"));
    t.put("rri", Glyph::Vowel("ঋ"));
    t.put("E", Glyph::VowelSign("ে"));
    t.put("oi", Glyph::Vowel("ঐ"));
    t.put("OI", Glyph::Vowel("ঐ"));
    t.put("O", Glyph::VowelSign("ো"));
    t.put("ou", Glyph::Vowel("ঔ"));
    t.put("OU", Glyph::Vowel("ঔ"));
}

/// The first half of the consonant row, aspirates on a trailing `h`.
fn add_consonant_front_rules(t: &mut RuleTable)
    requires
        old(t).wf(),
    ensures
        final(t).wf(),
        final(t).rules@.len() >= old(t).rules@.len(),
        forall|k: Seq<char>|
            old(t).spec_lookup(k) is Some ==> final(t).spec_lookup(k) == old(t).spec_lookup(k),
{
    t.put("k", Glyph::Consonant("ক"));
    t.put("kh", Glyph::Consonant("খ"));
    t.put("g", Glyph::Consonant("গ"));
    t.put("gh", Glyph::Consonant("ঘ"));
    t.put("ng", Glyph::Consonant("ঙ"));
    t.put("c", Glyph::Consonant("চ"));
    t.put("ch", Glyph::Consonant("ছ"));
    t.put("j", Glyph::Consonant("জ"));
    t.put("jh", Glyph::Consonant("ঝ"));
    t.put("ny", Glyph::Consonant("ঞ"));
    t.put("t", Glyph::Consonant("ট"));
    t.put("th", Glyph::Consonant("ঠ"));
    t.put("d", Glyph::Consonant("ড"));
    t.put("dh", Glyph::Consonant("ঢ"));
    t.put("n", Glyph::Consonant("ন"));
    t.put("p", Glyph::Consonant("প"));
}

/// The second half of the consonant row, with a few doubled clusters.
fn add_consonant_back_rules(t: &mut RuleTable)
    requires
        old(t).wf(),
    ensures
        final(t).wf(),
        final(t).rules@.len() >= old(t).rules@.len(),
        forall|k: Seq<char>|
            old(t).spec_lookup(k) is Some ==> final(t).spec_lookup(k) == old(t).spec_lookup(k),
{
    t.put("ph", Glyph::Consonant("ফ"));
    t.put("f", Glyph::Consonant("ফ"));
    t.put("b", Glyph::Consonant("ব"));
    t.put("bh", Glyph::Consonant("ভ"));
    t.put("v", Glyph::Consonant("ভ"));
    t.put("m", Glyph::Consonant("ম"));
    t.put("z", Glyph::Consonant("য"));
    t.put("r", Glyph::Consonant("র"));
    t.put("l", Glyph::Consonant("ল"));
    t.put("sh", Glyph::Consonant("শ"));
    t.put("s", Glyph::Consonant("স"));
    t.put("h", Glyph::Consonant("হ"));
    t.put("y", Glyph::Consonant("য়"));
    t.put("kk", Glyph::Consonant("ক্ক"));
    t.put("tt", Glyph::Consonant("ত্ত"));
    t.put("nn", Glyph::Consonant("ন্ন"));
}

/// The digit row.
fn add_digit_rules(t: &mut RuleTable)
    requires
        old(t).wf(),
    ensures
        final(t).wf(),
        final(t).rules@.len() >= old(t).rules@.len(),
        forall|k: Seq<char>|
            old(t).spec_lookup(k) is Some ==> final(t).spec_lookup(k) == old(t).spec_lookup(k),
{
    t.put("0", Glyph::Digit("০"));
    t.put("1", Glyph::Digit("১"));
    t.put("2", Glyph::Digit("২"));
    t.put("3", Glyph::Digit("৩"));
    t.put("4", Glyph::Digit("৪"));
    t.put("5", Glyph::Digit("৫"));
    t.put("6", Glyph::Digit("৬"));
    t.put("7", Glyph::Digit("৭"));
    t.put("8", Glyph::Digit("৮"));
    t.put("9", Glyph::Digit("৯"));
}

/// One primary vowel key is mapped to an independent vowel glyph.
pub open spec fn maps_to_vowel_glyph(t: RuleTable, key: char, glyph: Seq<char>) -> bool {
    &&& t.spec_lookup(seq![key]) is Some
    &&& t.spec_lookup(seq![key]).unwrap() is Vowel
    &&& t.spec_lookup(seq![key]).unwrap().spec_text() == glyph
}

/// The phonetic table the keyboard ships with: the vowel row, the
/// consonants, and the digits.  The five primary vowel keys, which the
/// engine's word-initial fast path rests on, are pinned to their
/// independent glyphs.
pub fn bangla_table() -> (t: RuleTable)
    ensures
        t.wf(),
        t.rules@.len() > 0,
        maps_to_vowel_glyph(t, 'a', "অ"@),
        maps_to_vowel_glyph(t, 'e', "এ"@),
        maps_to_vowel_glyph(t, 'i', "ই"@),
        maps_to_vowel_glyph(t, 'o', "ও"@),
        maps_to_vowel_glyph(t, 'u', "উ"@),
{
    let mut t = RuleTable::new();
    proof {
        reveal_strlit("a");
        reveal_strlit("e");
        reveal_strlit("i");
        reveal_strlit("o");
        reveal_strlit("u");
        assert("a"@ =~= seq!['a']);
        assert("e"@ =~= seq!['e']);
        assert("i"@ =~= seq!['i']);
        assert("o"@ =~= seq!['o']);
        assert("u"@ =~= seq!['u']);
        assert("a"@[0] == 'a');
        assert("e"@[0] == 'e');
        assert("i"@[0] == 'i');
        assert("o"@[0] == 'o');
        assert("u"@[0] == 'u');
    }
    t.insert("a", Glyph::Vowel("অ"));
    proof {
        lemma_lookup_none_iff(t.rules@, "e"@);
    }
    let ghost before_e = t.rules@;
    t.insert("e", Glyph::Vowel("এ"));
    proof {
        lemma_lookup_push(before_e, (PhoneticRule { key: "e", glyph: Glyph::Vowel("এ") }), seq!['a']);
        lemma_lookup_push(before_e, (PhoneticRule { key: "e", glyph: Glyph::Vowel("এ") }), seq!['e']);
    }
    proof {
        lemma_lookup_none_iff(t.rules@, "i"@);
    }
    let ghost before_i = t.rules@;
    t.insert("i", Glyph::Vowel("ই"));
    proof {
        lemma_lookup_push(before_i, (PhoneticRule { key: "i", glyph: Glyph::Vowel("ই") }), seq!['a']);
        lemma_lookup_push(before_i, (PhoneticRule { key: "i", glyph: Glyph::Vowel("ই") }), seq!['e']);
        lemma_lookup_push(before_i, (PhoneticRule { key: "i", glyph: Glyph::Vowel("ই") }), seq!['i']);
    }
    proof {
        lemma_lookup_none_iff(t.rules@, "o"@);
    }
    let ghost before_o = t.rules@;
    t.insert("o", Glyph::Vowel("ও"));
    proof {
        lemma_lookup_push(before_o, (PhoneticRule { key: "o", glyph: Glyph::Vowel("ও") }), seq!['a']);
        lemma_lookup_push(before_o, (PhoneticRule { key: "o", glyph: Glyph::Vowel("ও") }), seq!['e']);
        lemma_lookup_push(before_o, (PhoneticRule { key: "o", glyph: Glyph::Vowel("ও") }), seq!['i']);
        lemma_lookup_push(before_o, (PhoneticRule { key: "o", glyph: Glyph::Vowel("ও") }), seq!['o']);
    }
    proof {
        lemma_lookup_none_iff(t.rules@, "u"@);
    }
    let ghost before_u = t.rules@;
    t.insert("u", Glyph::Vowel("উ"));
    proof {
        lemma_lookup_push(before_u, (PhoneticRule { key: "u", glyph: Glyph::Vowel("উ") }), seq!['a']);
        lemma_lookup_push(before_u, (PhoneticRule { key: "u", glyph: Glyph::Vowel("উ") }), seq!['e']);
        lemma_lookup_push(before_u, (PhoneticRule { key: "u", glyph: Glyph::Vowel("উ") }), seq!['i']);
        lemma_lookup_push(before_u, (PhoneticRule { key: "u", glyph: Glyph::Vowel("উ") }), seq!['o']);
        lemma_lookup_push(before_u, (PhoneticRule { key: "u", glyph: Glyph::Vowel("উ") }), seq!['u']);
    }
    proof {
        assert(maps_to_vowel_glyph(t, 'a', "অ"@));
        assert(maps_to_vowel_glyph(t, 'e', "এ"@));
        assert(maps_to_vowel_glyph(t, 'i', "ই"@));
        assert(maps_to_vowel_glyph(t, 'o', "ও"@));
        assert(maps_to_vowel_glyph(t, 'u', "উ"@));
    }
    add_vowel_rules(&mut t);
    add_consonant_front_rules(&mut t);
    add_consonant_back_rules(&mut t);
    add_digit_rules(&mut t);
    t
}

} // verus!
