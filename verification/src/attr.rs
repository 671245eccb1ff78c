//! The text of an `env` annotation: `"KEY", default = "..", required, split = ".."`.
//!
//! The text is searched, not tokenized: the key is what stands between the
//! opening quote and the next one; behind it, `default` and `split` take
//! the quoted text after the first `=` that follows the word, and
//! `required` holds if the word occurs at all.

use crate::field::{text_view, Rule};
use crate::text::{char_is_whitespace, chars_of, find_from, find_in, is_whitespace};
use vstd::prelude::*;
use vstd::string::StrSliceExecFns;

verus! {

/// The first position at or after `from` that holds no white space.
pub open spec fn skip_white(s: Seq<char>, from: int) -> int
    decreases s.len() - from,
{
    if 0 <= from < s.len() && is_whitespace(s[from]) {
        skip_white(s, from + 1)
    } else {
        from
    }
}

/// The text between a quote that stands at `from`, white space apart,
/// and the next quote.
pub open spec fn quoted_at(s: Seq<char>, from: int) -> Option<Seq<char>> {
    let open = skip_white(s, from);
    if 0 <= open < s.len() && s[open] == '"' {
        match find_from(s, seq!['"'], open + 1) {
            Some(close) => Some(s.subrange(open + 1, close)),
            None => None,
        }
    } else {
        None
    }
}

/// The quoted text after the first `=` behind the first occurrence of
/// `word` at or after `from`.
pub open spec fn word_value(s: Seq<char>, from: int, word: Seq<char>) -> Option<Seq<char>> {
    match find_from(s, word, from) {
        Some(at) => match find_from(s, seq!['='], at) {
            Some(eq) => quoted_at(s, eq + 1),
            None => None,
        },
        None => None,
    }
}

/// What the annotations of a field say.
#[derive(Clone, Debug, PartialEq, Eq)]
pub struct EnvAttr {
    /// The key, where an annotation gives one.
    pub key: Option<String>,
    /// The default, where an annotation gives one.
    pub default: Option<String>,
    /// Whether an annotation says `required`.
    pub required: bool,
    /// The delimiter of a list, where an annotation gives one.
    pub split: Option<String>,
}

/// An `EnvAttr` with its texts as sequences of characters.
pub struct EnvAttrView {
    pub key: Option<Seq<char>>,
    pub default: Option<Seq<char>>,
    pub required: bool,
    pub split: Option<Seq<char>>,
}

impl View for EnvAttr {
    type V = EnvAttrView;

    open spec fn view(&self) -> EnvAttrView {
        EnvAttrView {
            key: text_view(self.key),
            default: text_view(self.default),
            required: self.required,
            split: text_view(self.split),
        }
    }
}

/// Where the key of an annotation ends: the position of the quote that
/// closes it, if the text opens with a quote and holds a second one.
pub open spec fn key_end(s: Seq<char>) -> Option<int> {
    if s.len() > 0 && s[0] == '"' {
        find_from(s, seq!['"'], 1)
    } else {
        None
    }
}

/// `one` if it is there, else `other`.
pub open spec fn or_else(one: Option<Seq<char>>, other: Option<Seq<char>>) -> Option<Seq<char>> {
    match one {
        Some(_) => one,
        None => other,
    }
}

/// What is known of a field once the annotation `s` is read after
/// `before`. A text that does not open with a quoted key changes nothing.
/// Else the key is replaced; a default and a delimiter are replaced
/// where the text gives one, and `required` is added where it says so.
pub open spec fn annotated(before: EnvAttrView, s: Seq<char>) -> EnvAttrView {
    match key_end(s) {
        None => before,
        Some(close) => EnvAttrView {
            key: Some(s.subrange(1, close)),
            default: or_else(word_value(s, close + 1, "default"@), before.default),
            required: before.required || find_from(s, "required"@, close + 1) is Some,
            split: or_else(word_value(s, close + 1, "split"@), before.split),
        },
    }
}

/// The rule that the annotations of a field amount to: none without a
/// key, which marks a nested field; lists are cut at commas where no
/// delimiter is given.
pub open spec fn rule_of(attr: EnvAttrView) -> Option<(Seq<char>, Option<Seq<char>>, bool, Seq<char>)> {
    match attr.key {
        None => None,
        Some(key) => Some(
            (key, attr.default, attr.required, match attr.split {
                Some(sep) => sep,
                None => seq![','],
            }),
        ),
    }
}

/// The first position at or after `from` that holds no white space.
pub fn skip_white_in(s: &Vec<char>, from: usize) -> (r: usize)
    ensures
        r == skip_white(s@, from as int),
        from <= r,
        r <= s.len() || r == from,
{
    let n: usize = s.len();
    let mut j: usize = from;
    while j < n && char_is_whitespace(s[j])
        invariant
            from <= j,
            j <= n || j == from,
            n == s.len(),
            skip_white(s@, from as int) == skip_white(s@, j as int),
        decreases n - j,
    {
        j += 1;
    }
    j
}

/// The text between a quote at `from`, white space apart, and the next.
fn quoted_in(text: &str, s: &Vec<char>, from: usize) -> (r: Option<String>)
    requires
        s@ == text@,
    ensures
        text_view(r) == quoted_at(s@, from as int),
{
    let open = skip_white_in(s, from);
    if open < s.len() && s[open] == '"' {
        let quote: Vec<char> = vec!['"'];
        assert(quote@ =~= seq!['"']);
        match find_in(s, &quote, open + 1) {
            Some(close) => Some(text.substring_char(open + 1, close).to_owned()),
            None => None,
        }
    } else {
        None
    }
}

/// The quoted text after the first `=` behind the first `word`.
fn word_value_in(text: &str, s: &Vec<char>, from: usize, word: &str) -> (r: Option<String>)
    requires
        s@ == text@,
    ensures
        text_view(r) == word_value(s@, from as int, word@),
{
    let pat = chars_of(word);
    match find_in(s, &pat, from) {
        Some(at) => {
            let equals: Vec<char> = vec!['='];
            assert(equals@ =~= seq!['=']);
            match find_in(s, &equals, at) {
                Some(eq) => quoted_in(text, s, eq + 1),
                None => None,
            }
        },
        None => None,
    }
}

impl EnvAttr {
    /// What is known of a field before an annotation is read: nothing.
    pub fn new() -> (r: EnvAttr)
        ensures
            r@ == (EnvAttrView { key: None, default: None, required: false, split: None }),
    {
        EnvAttr { key: None, default: None, required: false, split: None }
    }

    /// Reads the text of one annotation.
    pub fn read(&mut self, text: &str)
        ensures
            final(self)@ == annotated(old(self)@, text@),
    {
        let s = chars_of(text);
        if s.len() == 0 || s[0] != '"' {
            return ;
        }
        let quote: Vec<char> = vec!['"'];
        assert(quote@ =~= seq!['"']);
        match find_in(&s, &quote, 1) {
            None => {},
            Some(close) => {
                self.key = Some(text.substring_char(1, close).to_owned());
                match word_value_in(text, &s, close + 1, "default") {
                    Some(value) => {
                        self.default = Some(value);
                    },
                    None => {},
                }
                let word = chars_of("required");
                if find_in(&s, &word, close + 1).is_some() {
                    self.required = true;
                }
                match word_value_in(text, &s, close + 1, "split") {
                    Some(value) => {
                        self.split = Some(value);
                    },
                    None => {},
                }
            },
        }
    }

    /// The rule that the annotations amount to, or none for a nested field.
    pub fn rule(&self) -> (r: Option<Rule>)
        ensures
            match r {
                Some(rule) => rule_of(self@) == Some(
                    (rule.key@, text_view(rule.default), rule.required, rule.delimiter@),
                ),
                None => rule_of(self@) is None,
            },
    {
        match &self.key {
            None => None,
            Some(key) => {
                let delimiter = match &self.split {
                    Some(sep) => sep.clone(),
                    None => {
                        let comma = ",".to_owned();
                        proof {
                            reveal_strlit(",");
                        }
                        comma
                    },
                };
                Some(
                    Rule {
                        key: key.clone(),
                        default: self.default.clone(),
                        required: self.required,
                        delimiter,
                    },
                )
            },
        }
    }
}

} // verus!
