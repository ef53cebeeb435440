//! Queries over the rule table for the settings and layout-preview panel:
//! case-folded substring search of the rule keys, and filtering the table by
//! glyph category.  The panel itself is an external collaborator; this
//! module only computes what it displays.

use vstd::prelude::*;
use vstd::string::*;
use crate::rules::Glyph;
use crate::rules::PhoneticRule;
use crate::rules::RuleTable;
use crate::rules::str_eq;

verus! {

/// An upper-case Latin letter folded to lower case; anything else unchanged.
/// Rule keys are Latin, so folding beyond that range has no use here.
pub open spec fn lower_char(c: char) -> char {
    if 65 <= c as u32 <= 90 {
        (((c as u32) + 32) as u8) as char
    } else {
        c
    }
}

pub open spec fn lower_seq(s: Seq<char>) -> Seq<char> {
    s.map_values(|c: char| lower_char(c))
}

pub fn exec_lower_char(c: char) -> (r: char)
    ensures
        r == lower_char(c),
{
    let u = c as u32;
    if 65 <= u && u <= 90 {
        ((u + 32) as u8) as char
    } else {
        c
    }
}

/// The case-folded characters of `s`.
pub fn lower_vec(s: &str) -> (v: Vec<char>)
    ensures
        v@ == lower_seq(s@),
{
    let n = s.unicode_len();
    let mut v: Vec<char> = Vec::new();
    let mut i: usize = 0;
    while i < n
        invariant
            n == s@.len(),
            0 <= i <= n,
            v@ == lower_seq(s@.take(i as int)),
        decreases n - i,
    {
        let c = s.get_char(i);
        v.push(exec_lower_char(c));
        proof {
            assert(v@ =~= lower_seq(s@.take(i + 1)));
        }
        i = i + 1;
    }
    proof {
        assert(s@.take(n as int) =~= s@);
    }
    v
}

/// `needle` appears in `hay` starting at position `i`.
pub open spec fn is_substring_at(hay: Seq<char>, needle: Seq<char>, i: int) -> bool {
    0 <= i <= hay.len() - needle.len() && hay.subrange(i, i + needle.len()) == needle
}

/// `needle` appears somewhere in `hay`.
pub open spec fn contains_seq(hay: Seq<char>, needle: Seq<char>) -> bool {
    exists|i: int| is_substring_at(hay, needle, i)
}

/// Whether `hay[i..]` starts with `needle`.
fn matches_at(hay: &str, needle: &Vec<char>, i: usize) -> (b: bool)
    requires
        i + needle@.len() <= hay@.len(),
    ensures
        b == (hay@.subrange(i as int, i + needle@.len()) == needle@),
{
    let hn = hay.unicode_len();
    let n = needle.len();
    let mut k: usize = 0;
    while k < n
        invariant
            hn == hay@.len(),
            n == needle@.len(),
            i + n <= hay@.len(),
            0 <= k <= n,
            forall|j: int| 0 <= j < k ==> hay@[i + j] == needle@[j],
        decreases n - k,
    {
        if hay.get_char(i + k) != needle[k] {
            return false;
        }
        k = k + 1;
    }
    proof {
        assert(hay@.subrange(i as int, i + needle@.len()) =~= needle@);
    }
    true
}

/// Substring search of `needle` in `hay`.
pub fn str_contains_chars(hay: &str, needle: &Vec<char>) -> (b: bool)
    ensures
        b == contains_seq(hay@, needle@),
{
    let hn = hay.unicode_len();
    let nn = needle.len();
    if nn > hn {
        return false;
    }
    if nn == 0 {
        proof {
            assert(hay@.subrange(0, 0) =~= needle@);
            assert(is_substring_at(hay@, needle@, 0));
        }
        return true;
    }
    let limit = hn - nn;
    let mut i: usize = 0;
    while i <= limit
        invariant
            hn == hay@.len(),
            nn == needle@.len(),
            1 <= nn <= hn,
            limit == hn - nn,
            0 <= i <= limit + 1,
            forall|j: int| 0 <= j < i ==> !is_substring_at(hay@, needle@, j),
        decreases limit + 1 - i,
    {
        if matches_at(hay, needle, i) {
            proof {
                assert(is_substring_at(hay@, needle@, i as int));
            }
            return true;
        }
        i = i + 1;
    }
    false
}

/// One preview line: the Latin key, an arrow, the glyph.
pub open spec fn suggestion_line(r: PhoneticRule) -> Seq<char> {
    r.key@ + " → "@ + r.glyph.spec_text()
}

/// The preview lines for every rule whose key contains the folded search
/// text, in table order.
pub open spec fn spec_suggestions(rules: Seq<PhoneticRule>, needle: Seq<char>) -> Seq<Seq<char>>
    decreases rules.len(),
{
    if rules.len() == 0 {
        Seq::<Seq<char>>::empty()
    } else {
        spec_suggestions(rules.drop_last(), needle) + (if contains_seq(
            rules.last().key@,
            needle,
        ) {
            seq![suggestion_line(rules.last())]
        } else {
            Seq::<Seq<char>>::empty()
        })
    }
}

/// The state behind the settings and layout-preview panel.
pub struct KeyboardApp {
    pub show_settings: bool,
    pub suggestions: Vec<String>,
    pub search_text: String,
    pub selected_category: String,
}

impl Default for KeyboardApp {
    /// The panel starts closed, with no search and every category shown.
    fn default() -> (r: KeyboardApp)
        ensures
            r.show_settings == false,
            r.suggestions@.len() == 0,
            r.search_text@.len() == 0,
            r.selected_category@ == "All"@,
    {
        KeyboardApp {
            show_settings: false,
            suggestions: Vec::new(),
            search_text: String::new(),
            selected_category: String::from_str("All"),
        }
    }
}

impl KeyboardApp {
    /// Recomputes the suggestion lines for the current search text: empty
    /// search clears them, otherwise one line per rule whose key contains
    /// the case-folded search text, in table order.
    pub fn update_suggestions(&mut self, table: &RuleTable)
        ensures
            final(self).show_settings == old(self).show_settings,
            final(self).search_text == old(self).search_text,
            final(self).selected_category == old(self).selected_category,
            old(self).search_text@.len() == 0 ==> final(self).suggestions@.len() == 0,
            old(self).search_text@.len() > 0 ==> final(self).suggestions.deep_view()
                == spec_suggestions(table.rules@, lower_seq(old(self).search_text@)),
    {
        self.suggestions.clear();
        let n = self.search_text.as_str().unicode_len();
        if n == 0 {
            return;
        }
        let needle = lower_vec(self.search_text.as_str());
        let total = table.rules.len();
        let mut i: usize = 0;
        while i < total
            invariant
                total == table.rules@.len(),
                0 <= i <= total,
                needle@ == lower_seq(self.search_text@),
                self.suggestions.deep_view() == spec_suggestions(
                    table.rules@.take(i as int),
                    needle@,
                ),
                self.show_settings == old(self).show_settings,
                self.search_text == old(self).search_text,
                self.selected_category == old(self).selected_category,
            decreases total - i,
        {
            let rule = table.rules[i];
            proof {
                assert(table.rules@.take(i + 1).drop_last() =~= table.rules@.take(i as int));
                assert(table.rules@.take(i + 1).last() == table.rules@[i as int]);
            }
            if str_contains_chars(rule.key, &needle) {
                let mut line = String::from_str(rule.key);
                line.append(" → ");
                line.append(rule.glyph.text());
                self.suggestions.push(line);
            }
            proof {
                assert(self.suggestions.deep_view() =~= spec_suggestions(
                    table.rules@.take(i + 1),
                    needle@,
                ));
            }
            i = i + 1;
        }
        proof {
            assert(table.rules@.take(total as int) =~= table.rules@);
        }
    }

    /// Whether `key`'s rule falls in the selected category: `All` passes
    /// everything, a named category passes keys mapped to that category, an
    /// unknown selection passes nothing.
    pub open spec fn spec_matches_category(self, t: RuleTable, key: Seq<char>) -> bool {
        if self.selected_category@ == "All"@ {
            true
        } else if self.selected_category@ == "Vowels"@ {
            t.spec_lookup(key) matches Some(g) && g is Vowel
        } else if self.selected_category@ == "Consonants"@ {
            t.spec_lookup(key) matches Some(g) && g is Consonant
        } else if self.selected_category@ == "Numbers"@ {
            t.spec_lookup(key) matches Some(g) && g is Digit
        } else if self.selected_category@ == "Special"@ {
            t.spec_lookup(key) matches Some(g) && g is Special
        } else {
            false
        }
    }

    pub fn matches_category(&self, table: &RuleTable, key: &str) -> (b: bool)
        ensures
            b == self.spec_matches_category(*table, key@),
    {
        let cat = self.selected_category.as_str();
        if str_eq(cat, "All") {
            true
        } else if str_eq(cat, "Vowels") {
            match table.lookup_str(key) {
                Some(g) => matches!(g, Glyph::Vowel(_)),
                None => false,
            }
        } else if str_eq(cat, "Consonants") {
            match table.lookup_str(key) {
                Some(g) => matches!(g, Glyph::Consonant(_)),
                None => false,
            }
        } else if str_eq(cat, "Numbers") {
            match table.lookup_str(key) {
                Some(g) => matches!(g, Glyph::Digit(_)),
                None => false,
            }
        } else if str_eq(cat, "Special") {
            match table.lookup_str(key) {
                Some(g) => matches!(g, Glyph::Special(_)),
                None => false,
            }
        } else {
            false
        }
    }
}

} // verus!
