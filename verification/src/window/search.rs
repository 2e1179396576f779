//! Searching in a terminal.

use vstd::prelude::*;
use vstd::string::*;
use crate::text::chars_of;

verus! {

/// The flag of PCRE2 for a match whatever the case.
pub const PCRE2_CASELESS: u32 = 0x0000_0008;

/// The flag of PCRE2 for anchors that match at every line.
pub const PCRE2_MULTILINE: u32 = 0x0000_0400;

/// The flags of a search in a terminal.
pub fn terminal_search_regex_flags() -> (r: u32)
    ensures
        r == PCRE2_CASELESS | PCRE2_MULTILINE,
        r & PCRE2_CASELESS == PCRE2_CASELESS,
        r & PCRE2_MULTILINE == PCRE2_MULTILINE,
        r == 0x408,
{
    assert(0x0000_0008u32 | 0x0000_0400u32 == 0x408u32) by (bit_vector);
    assert(0x408u32 & 0x0000_0008u32 == 0x0000_0008u32) by (bit_vector);
    assert(0x408u32 & 0x0000_0400u32 == 0x0000_0400u32) by (bit_vector);
    PCRE2_CASELESS | PCRE2_MULTILINE
}

/// Whether a character means something in a pattern.
pub open spec fn is_special(c: char) -> bool {
    c == '\\' || c == '.' || c == '+' || c == '*' || c == '?' || c == '(' || c == ')' || c == '|'
        || c == '[' || c == ']' || c == '{' || c == '}' || c == '^' || c == '$'
}

/// A text as a pattern that matches it literally: a backslash before every character that
/// means something in a pattern.
pub open spec fn escaped(s: Seq<char>) -> Seq<char>
    decreases s.len(),
{
    if s.len() == 0 {
        Seq::empty()
    } else if is_special(s.last()) {
        escaped(s.drop_last()).push('\\').push(s.last())
    } else {
        escaped(s.drop_last()).push(s.last())
    }
}

/// A text as a pattern that matches it literally.
pub fn regex_escape(s: &str) -> (r: String)
    ensures
        r@ == escaped(s@),
{
    let chars = chars_of(s);
    let mut r = String::new();
    let mut i: usize = 0;
    assert(r@ =~= escaped(chars@.take(0)));
    while i < chars.len()
        invariant
            chars@ == s@,
            i <= chars.len(),
            r@ == escaped(chars@.take(i as int)),
        decreases chars.len() - i,
    {
        assert(chars@.take(i + 1).drop_last() =~= chars@.take(i as int));
        let c = chars[i];
        if c == '\\' || c == '.' || c == '+' || c == '*' || c == '?' || c == '(' || c == ')' || c
            == '|' || c == '[' || c == ']' || c == '{' || c == '}' || c == '^' || c == '$' {
            r.push('\\');
        }
        r.push(c);
        i += 1;
    }
    assert(chars@.take(i as int) =~= chars@);
    r
}

/// The text that a pattern of literal characters matches; nothing where the pattern holds
/// a character that means something and has no backslash before it.
pub open spec fn literal(pattern: Seq<char>) -> Option<Seq<char>>
    decreases pattern.len(),
{
    if pattern.len() == 0 {
        Some(Seq::empty())
    } else if pattern[0] == '\\' {
        if pattern.len() == 1 {
            None
        } else {
            match literal(pattern.skip(2)) {
                Some(rest) => Some(seq![pattern[1]] + rest),
                None => None,
            }
        }
    } else if is_special(pattern[0]) {
        None
    } else {
        match literal(pattern.skip(1)) {
            Some(rest) => Some(seq![pattern[0]] + rest),
            None => None,
        }
    }
}

/// One more character behind a pattern of literal characters.
proof fn lemma_literal_step(pattern: Seq<char>, text: Seq<char>, c: char)
    requires
        literal(pattern) == Some(text),
    ensures
        is_special(c) ==> literal(pattern.push('\\').push(c)) == Some(text.push(c)),
        !is_special(c) ==> literal(pattern.push(c)) == Some(text.push(c)),
    decreases pattern.len(),
{
    let long = pattern.push('\\').push(c);
    let short = pattern.push(c);
    if pattern.len() == 0 {
        assert(text =~= Seq::<char>::empty());
        if is_special(c) {
            assert(long.skip(2) =~= Seq::<char>::empty());
            assert(literal(long.skip(2)) == Some(Seq::<char>::empty()));
            assert(seq![c] + Seq::<char>::empty() =~= text.push(c));
        } else {
            assert(short.skip(1) =~= Seq::<char>::empty());
            assert(literal(short.skip(1)) == Some(Seq::<char>::empty()));
            assert(seq![c] + Seq::<char>::empty() =~= text.push(c));
        }
    } else {
        let n = if pattern[0] == '\\' {
            2int
        } else {
            1int
        };
        let first = if pattern[0] == '\\' {
            pattern[1]
        } else {
            pattern[0]
        };
        let rest = literal(pattern.skip(n))->0;
        lemma_literal_step(pattern.skip(n), rest, c);
        assert(long.skip(n) =~= pattern.skip(n).push('\\').push(c));
        assert(short.skip(n) =~= pattern.skip(n).push(c));
        assert(text == seq![first] + rest);
        assert(seq![first] + rest.push(c) =~= text.push(c));
    }
}

/// The pattern for a search matches the typed text and nothing else: every character
/// stands for itself.
pub proof fn law_escaped_text_is_literal(text: Seq<char>)
    ensures
        literal(escaped(text)) == Some(text),
    decreases text.len(),
{
    if text.len() == 0 {
        assert(text =~= Seq::<char>::empty());
    } else {
        let short = text.drop_last();
        law_escaped_text_is_literal(short);
        lemma_literal_step(escaped(short), short, text.last());
        assert(short.push(text.last()) =~= text);
    }
}

/// What a change of the search field does.
pub enum SearchChange {
    /// The search is dropped.
    Clear,
    /// The pattern is looked for, upwards from where the terminal is, round and round.
    Search { pattern: String, flags: u32 },
}

/// What a change of the search field does: an empty field drops the search.
pub fn search_for(typed: &str) -> (r: SearchChange)
    ensures
        match r {
            SearchChange::Clear => typed@.len() == 0,
            SearchChange::Search { pattern, flags } => typed@.len() > 0 && pattern@ == escaped(
                typed@,
            ) && flags == 0x408,
        },
{
    if typed.is_empty() {
        SearchChange::Clear
    } else {
        SearchChange::Search {
            pattern: regex_escape(typed),
            flags: terminal_search_regex_flags(),
        }
    }
}

/// A key that was pressed in the search field.
#[derive(Clone, Copy, Debug, PartialEq, Eq, Structural)]
pub enum SearchKey {
    Escape,
    Enter { shift: bool },
    Other,
}

/// What a key in the search field does.
#[derive(Clone, Copy, Debug, PartialEq, Eq, Structural)]
pub enum SearchKeyEffect {
    /// Closes the search and goes back to the terminal.
    Close,
    FindNext,
    FindPrevious,
    /// The key is typed.
    Pass,
}

/// What a key in the search field does.
pub fn search_key(key: SearchKey) -> (r: SearchKeyEffect)
    ensures
        r == match key {
            SearchKey::Escape => SearchKeyEffect::Close,
            SearchKey::Enter { shift: true } => SearchKeyEffect::FindPrevious,
            SearchKey::Enter { shift: false } => SearchKeyEffect::FindNext,
            SearchKey::Other => SearchKeyEffect::Pass,
        },
{
    match key {
        SearchKey::Escape => SearchKeyEffect::Close,
        SearchKey::Enter { shift } => {
            if shift {
                SearchKeyEffect::FindPrevious
            } else {
                SearchKeyEffect::FindNext
            }
        },
        SearchKey::Other => SearchKeyEffect::Pass,
    }
}

/// The characters that mean something in a pattern are escaped, and no others are.
pub proof fn law_what_is_escaped(s: Seq<char>, c: char)
    ensures
        is_special(c) <==> (c == '\\' || c == '.' || c == '+' || c == '*' || c == '?' || c == '('
            || c == ')' || c == '|' || c == '[' || c == ']' || c == '{' || c == '}' || c == '^'
            || c == '$'),
        escaped(Seq::empty()) == Seq::<char>::empty(),
        is_special(c) ==> escaped(s.push(c)) == escaped(s) + seq!['\\', c],
        !is_special(c) ==> escaped(s.push(c)) == escaped(s).push(c),
        PCRE2_CASELESS == 8,
        PCRE2_MULTILINE == 1024,
{
    assert(s.push(c).drop_last() =~= s);
    if is_special(c) {
        assert(escaped(s.push(c)) =~= escaped(s) + seq!['\\', c]);
    }
}

} // verus!
