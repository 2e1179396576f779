//! Text as sequences of characters: searching, trimming, replacing, rendering.

use vstd::prelude::*;
use vstd::string::*;

verus! {

/// `String::push` appends exactly the given character.
pub assume_specification[ String::push ](s: &mut String, c: char)
    ensures
        final(s)@ == old(s)@.push(c),
;

/// The characters of `s`, in order.
pub fn chars_of(s: &str) -> (v: Vec<char>)
    ensures
        v@ == s@,
{
    let mut v: Vec<char> = Vec::new();
    for c in iter: s.chars()
        invariant
            iter.seq() == s@,
            v@ == s@.take(iter.index() as int),
    {
        v.push(c);
    }
    v
}

/// The text made of the characters of `v` from `start` up to `end`.
pub fn string_of(v: &Vec<char>, start: usize, end: usize) -> (s: String)
    requires
        start <= end <= v@.len(),
    ensures
        s@ == v@.subrange(start as int, end as int),
{
    let mut s = String::new();
    let mut i: usize = start;
    while i < end
        invariant
            start <= i <= end <= v@.len(),
            s@ == v@.subrange(start as int, i as int),
        decreases end - i,
    {
        s.push(v[i]);
        i += 1;
    }
    s
}

/// Whether two texts hold the same characters.
pub fn same_text(a: &str, b: &str) -> (r: bool)
    ensures
        r == (a@ == b@),
{
    let x = chars_of(a);
    let y = chars_of(b);
    if x.len() != y.len() {
        return false;
    }
    let mut i: usize = 0;
    while i < x.len()
        invariant
            x@ == a@,
            y@ == b@,
            x@.len() == y@.len(),
            i <= x@.len(),
            forall|k: int| 0 <= k < i ==> x@[k] == y@[k],
        decreases x@.len() - i,
    {
        if x[i] != y[i] {
            return false;
        }
        i += 1;
    }
    assert(a@ =~= b@);
    true
}

/// The characters that Unicode calls white space.
pub open spec fn is_space(c: char) -> bool {
    ||| 9 <= c as int <= 13
    ||| c as int == 0x20
    ||| c as int == 0x85
    ||| c as int == 0xA0
    ||| c as int == 0x1680
    ||| 0x2000 <= c as int <= 0x200A
    ||| c as int == 0x2028
    ||| c as int == 0x2029
    ||| c as int == 0x202F
    ||| c as int == 0x205F
    ||| c as int == 0x3000
}

/// Whether `c` is white space.
pub fn is_whitespace(c: char) -> (r: bool)
    ensures
        r == is_space(c),
{
    let n: u32 = c as u32;
    (9 <= n && n <= 13) || n == 0x20 || n == 0x85 || n == 0xA0 || n == 0x1680 || (0x2000 <= n && n
        <= 0x200A) || n == 0x2028 || n == 0x2029 || n == 0x202F || n == 0x205F || n == 0x3000
}

/// `s` without the white space at its start.
pub open spec fn trim_start(s: Seq<char>) -> Seq<char>
    decreases s.len(),
{
    if s.len() > 0 && is_space(s[0]) {
        trim_start(s.skip(1))
    } else {
        s
    }
}

/// `s` without the white space at its end.
pub open spec fn trim_end(s: Seq<char>) -> Seq<char>
    decreases s.len(),
{
    if s.len() > 0 && is_space(s.last()) {
        trim_end(s.drop_last())
    } else {
        s
    }
}

/// `s` without the white space at either end.
pub open spec fn trimmed(s: Seq<char>) -> Seq<char> {
    trim_end(trim_start(s))
}

/// `text` without the white space at either end.
pub fn trim(text: &str) -> (r: String)
    ensures
        r@ == trimmed(text@),
{
    let v = chars_of(text);
    let mut start: usize = 0;
    assert(v@.skip(0) =~= v@);
    while start < v.len() && is_whitespace(v[start])
        invariant
            v@ == text@,
            start <= v@.len(),
            trim_start(v@.skip(start as int)) == trim_start(text@),
        decreases v@.len() - start,
    {
        assert(v@.skip(start as int).skip(1) =~= v@.skip(start + 1));
        start += 1;
    }
    let ghost rest = v@.skip(start as int);
    assert(trim_start(text@) == rest);
    let mut end: usize = v.len();
    assert(v@.subrange(start as int, end as int) =~= rest);
    while start < end && is_whitespace(v[end - 1])
        invariant
            v@ == text@,
            start <= end <= v@.len(),
            trim_end(v@.subrange(start as int, end as int)) == trim_end(rest),
        decreases end - start,
    {
        assert(v@.subrange(start as int, end as int).drop_last() =~= v@.subrange(
            start as int,
            end - 1,
        ));
        end -= 1;
    }
    string_of(&v, start, end)
}

/// Whether `s` starts with `p`.
pub open spec fn has_prefix(s: Seq<char>, p: Seq<char>) -> bool {
    p.len() <= s.len() && s.take(p.len() as int) == p
}

/// Whether `p` stands somewhere in `s`.
pub open spec fn has_part(s: Seq<char>, p: Seq<char>) -> bool {
    exists|i: int| 0 <= i <= s.len() && has_prefix(#[trigger] s.skip(i), p)
}

/// Whether the characters of `v` from `at` on start with `p`.
pub fn prefix_at(v: &Vec<char>, at: usize, p: &Vec<char>) -> (r: bool)
    requires
        at <= v@.len(),
    ensures
        r == has_prefix(v@.skip(at as int), p@),
{
    if v.len() - at < p.len() {
        return false;
    }
    let mut i: usize = 0;
    while i < p.len()
        invariant
            at <= v@.len(),
            at + p@.len() <= v.len(),
            i <= p@.len(),
            forall|k: int| 0 <= k < i ==> v@[at + k] == p@[k],
        decreases p@.len() - i,
    {
        if v[at + i] != p[i] {
            assert(v@.skip(at as int).take(p@.len() as int)[i as int] != p@[i as int]);
            return false;
        }
        i += 1;
    }
    assert(v@.skip(at as int).take(p@.len() as int) =~= p@);
    true
}

/// Whether `text` starts with `p`.
pub fn starts_with(text: &str, p: &str) -> (r: bool)
    ensures
        r == has_prefix(text@, p@),
{
    let v = chars_of(text);
    let w = chars_of(p);
    assert(v@.skip(0) =~= v@);
    prefix_at(&v, 0, &w)
}

/// Whether `p` stands somewhere in `text`.
pub fn contains_text(text: &str, p: &str) -> (r: bool)
    ensures
        r == has_part(text@, p@),
{
    let v = chars_of(text);
    let w = chars_of(p);
    let mut i: usize = 0;
    loop
        invariant
            v@ == text@,
            w@ == p@,
            i <= v@.len(),
            forall|k: int| 0 <= k < i ==> !has_prefix(#[trigger] v@.skip(k), w@),
        decreases v@.len() - i,
    {
        if prefix_at(&v, i, &w) {
            return true;
        }
        if i == v.len() {
            return false;
        }
        i += 1;
    }
}

/// The texts of `parts` with `sep` between them.
pub open spec fn joined(parts: Seq<Seq<char>>, sep: Seq<char>) -> Seq<char>
    decreases parts.len(),
{
    if parts.len() == 0 {
        Seq::empty()
    } else if parts.len() == 1 {
        parts[0]
    } else {
        joined(parts.drop_last(), sep) + sep + parts.last()
    }
}

/// The texts of `parts` with `sep` between them.
pub fn join_texts(parts: &Vec<String>, sep: &str) -> (r: String)
    ensures
        r@ == joined(parts.deep_view(), sep@),
{
    let mut out = String::new();
    let mut i: usize = 0;
    while i < parts.len()
        invariant
            i <= parts@.len(),
            out@ == joined(parts.deep_view().take(i as int), sep@),
        decreases parts@.len() - i,
    {
        let ghost done = parts.deep_view().take(i + 1);
        assert(done.drop_last() =~= parts.deep_view().take(i as int));
        if i > 0 {
            out.append(sep);
        }
        out.append(parts[i].as_str());
        assert(done.last() == parts@[i as int]@);
        if i == 0 {
            assert(out@ =~= done[0]);
        }
        i += 1;
    }
    assert(parts.deep_view().take(i as int) =~= parts.deep_view());
    out
}

/// Whether `c` is an ASCII letter or digit.
pub open spec fn is_alnum(c: char) -> bool {
    ||| '0' <= c <= '9'
    ||| 'A' <= c <= 'Z'
    ||| 'a' <= c <= 'z'
}

/// Whether `c` is an ASCII letter or digit.
pub fn is_ascii_alphanumeric(c: char) -> (r: bool)
    ensures
        r == is_alnum(c),
{
    ('0' <= c && c <= '9') || ('A' <= c && c <= 'Z') || ('a' <= c && c <= 'z')
}

/// `c`, or the small letter of an ASCII capital.
pub open spec fn ascii_small(c: char) -> char {
    if 'A' <= c <= 'Z' {
        (c as u8 + 32) as char
    } else {
        c
    }
}

/// `s` with every ASCII capital turned into its small letter.
pub open spec fn ascii_lowered(s: Seq<char>) -> Seq<char> {
    Seq::new(s.len(), |i: int| ascii_small(s[i]))
}

/// `text` with every ASCII capital turned into its small letter.
pub fn ascii_lowercase(text: &str) -> (r: String)
    ensures
        r@ == ascii_lowered(text@),
{
    let v = chars_of(text);
    let mut out = String::new();
    let mut i: usize = 0;
    while i < v.len()
        invariant
            v@ == text@,
            i <= v@.len(),
            out@ == ascii_lowered(text@).take(i as int),
        decreases v@.len() - i,
    {
        let c = v[i];
        if 'A' <= c && c <= 'Z' {
            out.push((c as u8 + 32) as char);
        } else {
            out.push(c);
        }
        i += 1;
    }
    out
}

/// The decimal digits of `n`.
pub open spec fn decimal(n: nat) -> Seq<char>
    decreases n,
{
    if n < 10 {
        seq![(48 + n) as char]
    } else {
        decimal(n / 10).push((48 + n % 10) as char)
    }
}

/// The decimal digits of `n`.
pub fn decimal_text(n: u64) -> (r: String)
    ensures
        r@ == decimal(n as nat),
    decreases n,
{
    let digit: u8 = (n % 10) as u8;
    if n < 10 {
        let mut out = String::new();
        out.push((48u8 + digit) as char);
        assert(out@ =~= decimal(n as nat));
        out
    } else {
        let mut out = decimal_text(n / 10);
        out.push((48u8 + digit) as char);
        out
    }
}

/// Another list of the same texts.
pub fn copy_texts(texts: &Vec<String>) -> (r: Vec<String>)
    ensures
        r.deep_view() == texts.deep_view(),
{
    let mut out: Vec<String> = Vec::new();
    let mut i: usize = 0;
    while i < texts.len()
        invariant
            i <= texts@.len(),
            out.deep_view() == texts.deep_view().take(i as int),
        decreases texts@.len() - i,
    {
        let ghost before = out.deep_view();
        out.push(texts[i].clone());
        assert(out.deep_view() =~= before.push(texts@[i as int]@));
        i += 1;
    }
    out
}

/// The pieces of `s` between the occurrences of `sep`; one more than there are of those.
pub open spec fn split_on(s: Seq<char>, sep: char) -> Seq<Seq<char>>
    decreases s.len(),
{
    if s.len() == 0 {
        seq![Seq::empty()]
    } else {
        let before = split_on(s.drop_last(), sep);
        if s.last() == sep {
            before.push(Seq::empty())
        } else {
            before.drop_last().push(before.last().push(s.last()))
        }
    }
}

/// The pieces of `text` between the occurrences of `sep`.
pub fn split_text(text: &str, sep: char) -> (r: Vec<String>)
    ensures
        r.deep_view() == split_on(text@, sep),
        r@.len() > 0,
{
    let v = chars_of(text);
    let mut pieces: Vec<String> = Vec::new();
    let mut current = String::new();
    let mut i: usize = 0;
    assert(pieces.deep_view().push(current@) =~= split_on(v@.take(0), sep));
    while i < v.len()
        invariant
            v@ == text@,
            i <= v@.len(),
            pieces.deep_view().push(current@) == split_on(v@.take(i as int), sep),
        decreases v@.len() - i,
    {
        let ghost before = pieces.deep_view().push(current@);
        let ghost done = pieces.deep_view();
        let ghost word = current@;
        assert(v@.take(i + 1).drop_last() =~= v@.take(i as int));
        if v[i] == sep {
            pieces.push(current);
            current = String::new();
            assert(pieces.deep_view() =~= done.push(word));
            assert(pieces.deep_view().push(current@) =~= before.push(Seq::empty()));
        } else {
            current.push(v[i]);
            assert(pieces.deep_view().push(current@) =~= before.drop_last().push(
                before.last().push(v@[i as int]),
            ));
        }
        i += 1;
    }
    assert(v@.take(i as int) =~= v@);
    let ghost done = pieces.deep_view();
    let ghost word = current@;
    pieces.push(current);
    assert(pieces.deep_view() =~= done.push(word));
    pieces
}

/// A text always has a first piece.
pub proof fn lemma_split_on_len(s: Seq<char>, sep: char)
    ensures
        split_on(s, sep).len() > 0,
    decreases s.len(),
{
    if s.len() > 0 {
        lemma_split_on_len(s.drop_last(), sep);
    }
}

/// Whether two texts differ at most in the case of ASCII letters.
pub fn same_ignoring_ascii_case(a: &str, b: &str) -> (r: bool)
    ensures
        r == (ascii_lowered(a@) == ascii_lowered(b@)),
{
    same_text(ascii_lowercase(a).as_str(), ascii_lowercase(b).as_str())
}

/// `s` up to the first `sep`, or all of it.
pub open spec fn before_first(s: Seq<char>, sep: char) -> Seq<char>
    decreases s.len(),
{
    if s.len() == 0 || s[0] == sep {
        Seq::empty()
    } else {
        seq![s[0]] + before_first(s.skip(1), sep)
    }
}

/// `text` up to the first `sep`, or all of it.
pub fn text_before_first(text: &str, sep: char) -> (r: String)
    ensures
        r@ == before_first(text@, sep),
{
    let v = chars_of(text);
    let mut i: usize = 0;
    assert(v@.skip(0) =~= v@);
    assert(v@.subrange(0, 0) =~= Seq::empty());
    assert(Seq::<char>::empty() + before_first(v@, sep) =~= before_first(v@, sep));
    while i < v.len() && v[i] != sep
        invariant
            v@ == text@,
            i <= v@.len(),
            before_first(text@, sep) == v@.subrange(0, i as int) + before_first(
                v@.skip(i as int),
                sep,
            ),
        decreases v@.len() - i,
    {
        assert(v@.skip(i as int).skip(1) =~= v@.skip(i + 1));
        assert(v@.subrange(0, i as int) + (seq![v@[i as int]] + before_first(v@.skip(i + 1), sep))
            =~= v@.subrange(0, i + 1) + before_first(v@.skip(i + 1), sep));
        i += 1;
    }
    assert(v@.subrange(0, i as int) + Seq::<char>::empty() =~= v@.subrange(0, i as int));
    string_of(&v, 0, i)
}

/// `s` behind the last `sep`, or all of it.
pub open spec fn after_last(s: Seq<char>, sep: char) -> Seq<char>
    decreases s.len(),
{
    if s.len() == 0 || s.last() == sep {
        Seq::empty()
    } else {
        after_last(s.drop_last(), sep).push(s.last())
    }
}

/// `text` behind the last `sep`, or all of it.
pub fn text_after_last(text: &str, sep: char) -> (r: String)
    ensures
        r@ == after_last(text@, sep),
{
    let v = chars_of(text);
    let mut start: usize = 0;
    let mut i: usize = 0;
    while i < v.len()
        invariant
            v@ == text@,
            start <= i <= v@.len(),
            v@.subrange(start as int, i as int) == after_last(v@.take(i as int), sep),
        decreases v@.len() - i,
    {
        assert(v@.take(i + 1).drop_last() =~= v@.take(i as int));
        if v[i] == sep {
            start = i + 1;
        }
        i += 1;
        assert(v@.subrange(start as int, i as int) =~= after_last(v@.take(i as int), sep));
    }
    assert(v@.take(i as int) =~= v@);
    string_of(&v, start, i)
}

/// Whether two lists hold the same texts in the same order.
pub fn same_texts(a: &Vec<String>, b: &Vec<String>) -> (r: bool)
    ensures
        r == (a.deep_view() == b.deep_view()),
{
    if a.len() != b.len() {
        assert(a.deep_view().len() != b.deep_view().len());
        return false;
    }
    let mut i: usize = 0;
    while i < a.len()
        invariant
            a@.len() == b@.len(),
            i <= a@.len(),
            forall|k: int| 0 <= k < i ==> a.deep_view()[k] == b.deep_view()[k],
        decreases a@.len() - i,
    {
        if !same_text(a[i].as_str(), b[i].as_str()) {
            assert(a.deep_view()[i as int] != b.deep_view()[i as int]);
            return false;
        }
        i += 1;
    }
    assert(a.deep_view() =~= b.deep_view());
    true
}

/// Whether two optional texts are the same.
pub fn same_optional_text(a: &Option<String>, b: &Option<String>) -> (r: bool)
    ensures
        r == (a.deep_view() == b.deep_view()),
{
    match (a, b) {
        (Some(x), Some(y)) => same_text(x.as_str(), y.as_str()),
        (None, None) => true,
        _ => false,
    }
}

/// Another optional text of the same content.
pub fn copy_optional_text(a: &Option<String>) -> (r: Option<String>)
    ensures
        r == *a,
{
    match a {
        Some(x) => Some(x.clone()),
        None => None,
    }
}

/// `s` without the white space at either end, unless nothing is left.
pub open spec fn filled(s: Seq<char>) -> Option<Seq<char>> {
    if trimmed(s).len() > 0 {
        Some(trimmed(s))
    } else {
        None
    }
}

/// `text` without the white space at either end, unless nothing is left.
pub fn trimmed_non_empty(text: &str) -> (r: Option<String>)
    ensures
        r.deep_view() == filled(text@),
{
    let t = trim(text);
    if t.as_str().is_empty() {
        None
    } else {
        Some(t)
    }
}

/// Whether `a` comes before `b` in the order of their characters.
pub open spec fn text_before(a: Seq<char>, b: Seq<char>) -> bool
    decreases a.len(),
{
    if b.len() == 0 {
        false
    } else if a.len() == 0 {
        true
    } else if a[0] != b[0] {
        a[0] < b[0]
    } else {
        text_before(a.skip(1), b.skip(1))
    }
}

/// Whether `a` comes before `b` in the order of their characters.
pub fn comes_before(a: &str, b: &str) -> (r: bool)
    ensures
        r == text_before(a@, b@),
{
    let x = chars_of(a);
    let y = chars_of(b);
    let mut i: usize = 0;
    assert(x@.skip(0) =~= x@);
    assert(y@.skip(0) =~= y@);
    while i < x.len() && i < y.len()
        invariant
            x@ == a@,
            y@ == b@,
            i <= x@.len(),
            i <= y@.len(),
            text_before(x@.skip(i as int), y@.skip(i as int)) == text_before(a@, b@),
        decreases x@.len() - i,
    {
        assert(x@.skip(i as int).skip(1) =~= x@.skip(i + 1));
        assert(y@.skip(i as int).skip(1) =~= y@.skip(i + 1));
        if x[i] != y[i] {
            return x[i] < y[i];
        }
        i += 1;
    }
    i < y.len()
}

/// No text comes before itself, and of two different texts one comes before the other,
/// not both.
pub proof fn lemma_text_order(a: Seq<char>, b: Seq<char>)
    ensures
        !(text_before(a, b) && text_before(b, a)),
        a != b ==> text_before(a, b) || text_before(b, a),
        a == b ==> !text_before(a, b),
    decreases a.len(),
{
    if a.len() > 0 && b.len() > 0 && a[0] == b[0] {
        let x = a.skip(1);
        let y = b.skip(1);
        lemma_text_order(x, y);
        assert(text_before(a, b) == text_before(x, y));
        assert(text_before(b, a) == text_before(y, x));
        if x == y {
            assert(a =~= b) by {
                assert forall|i: int| 0 <= i < a.len() implies a[i] == b[i] by {
                    if i > 0 {
                        assert(a[i] == x[i - 1] && b[i] == y[i - 1]);
                    }
                }
            }
        }
    } else if a.len() == 0 && b.len() == 0 {
        assert(a =~= b);
    }
}

/// The order of texts is transitive.
pub proof fn lemma_text_order_transitive(a: Seq<char>, b: Seq<char>, c: Seq<char>)
    ensures
        text_before(a, b) && text_before(b, c) ==> text_before(a, c),
    decreases a.len(),
{
    if a.len() > 0 && b.len() > 0 && c.len() > 0 && a[0] == b[0] && b[0] == c[0] {
        lemma_text_order_transitive(a.skip(1), b.skip(1), c.skip(1));
    }
}

/// The white space is that of Unicode, and nothing else is.
pub proof fn law_white_space(c: char)
    ensures
        is_space(c) <==> (c == ' ' || c == '\t' || c == '\n' || c == '\u{b}' || c == '\u{c}' || c
            == '\r' || c == '\u{85}' || c == '\u{a0}' || c == '\u{1680}' || '\u{2000}' <= c
            <= '\u{200a}' || c == '\u{2028}' || c == '\u{2029}' || c == '\u{202f}' || c
            == '\u{205f}' || c == '\u{3000}'),
{
}

/// Trimming takes white space from both ends and nothing else: what is left begins and ends
/// with other characters, and white space alone stood before and behind it.
pub proof fn law_trimming_takes_the_ends(s: Seq<char>)
    ensures
        trimmed(s).len() > 0 ==> !is_space(trimmed(s)[0]) && !is_space(trimmed(s).last()),
        exists|from: int, to: int|
            0 <= from <= to <= s.len() && #[trigger] s.subrange(from, to) == trimmed(s) && (forall|
                i: int,
            |
                0 <= i < from ==> is_space(#[trigger] s[i])) && (forall|i: int|
                to <= i < s.len() ==> is_space(#[trigger] s[i])),
{
    let rest = trim_start(s);
    let r = trimmed(s);
    lemma_trim_start(s);
    lemma_trim_end(rest);
    let from = s.len() - rest.len();
    let to = from + r.len();
    assert(s.subrange(from, to) =~= r) by {
        assert(rest =~= s.skip(from));
    }
    assert forall|i: int| to <= i < s.len() implies is_space(#[trigger] s[i]) by {
        assert(rest[i - from] == s[i]);
    }
    if r.len() > 0 {
        assert(r[0] == rest[0]);
    }
}

/// What is left of a text without the white space before it.
pub proof fn lemma_trim_start(s: Seq<char>)
    ensures
        trim_start(s).len() <= s.len(),
        trim_start(s) == s.skip(s.len() - trim_start(s).len()),
        trim_start(s).len() > 0 ==> !is_space(trim_start(s)[0]),
        forall|i: int| 0 <= i < s.len() - trim_start(s).len() ==> is_space(#[trigger] s[i]),
    decreases s.len(),
{
    if s.len() > 0 && is_space(s[0]) {
        let rest = s.skip(1);
        lemma_trim_start(rest);
        assert(trim_start(s) =~= s.skip(s.len() - trim_start(s).len()));
        assert forall|i: int| 0 <= i < s.len() - trim_start(s).len() implies is_space(
            #[trigger] s[i],
        ) by {
            if i > 0 {
                assert(rest[i - 1] == s[i]);
            }
        }
    } else {
        assert(s.skip(0) =~= s);
    }
}

/// What is left of a text without the white space behind it.
pub proof fn lemma_trim_end(s: Seq<char>)
    ensures
        trim_end(s).len() <= s.len(),
        trim_end(s) == s.take(trim_end(s).len() as int),
        trim_end(s).len() > 0 ==> !is_space(trim_end(s).last()),
        forall|i: int| trim_end(s).len() <= i < s.len() ==> is_space(#[trigger] s[i]),
    decreases s.len(),
{
    if s.len() > 0 && is_space(s.last()) {
        let rest = s.drop_last();
        lemma_trim_end(rest);
        assert(trim_end(s) =~= s.take(trim_end(s).len() as int));
        assert forall|i: int| trim_end(s).len() <= i < s.len() implies is_space(#[trigger] s[i]) by {
            if i < rest.len() {
                assert(rest[i] == s[i]);
            }
        }
    } else {
        assert(s.take(s.len() as int) =~= s);
    }
}

/// A text without white space at its ends is trimmed already.
pub proof fn lemma_trimmed_plain(s: Seq<char>)
    requires
        s.len() > 0 ==> !is_space(s[0]) && !is_space(s.last()),
    ensures
        trimmed(s) == s,
{
}

/// Lower case is the same text with small letters for the capital ones of ASCII.
pub proof fn law_lower_case(s: Seq<char>, i: int)
    requires
        0 <= i < s.len(),
    ensures
        ascii_lowered(s).len() == s.len(),
        'A' <= s[i] <= 'Z' ==> ascii_lowered(s)[i] as int == s[i] as int + 32,
        !('A' <= s[i] <= 'Z') ==> ascii_lowered(s)[i] == s[i],
        ascii_lowered(ascii_lowered(s)) == ascii_lowered(s),
{
    assert(ascii_lowered(ascii_lowered(s)) =~= ascii_lowered(s));
}

/// Letters and digits of ASCII, and nothing else.
pub proof fn law_letters_and_digits(c: char)
    ensures
        is_alnum(c) <==> (48 <= c as int <= 57 || 65 <= c as int <= 90 || 97 <= c as int <= 122),
{
}

/// What stands before the first separator has none, and is followed by one or by nothing.
pub proof fn law_before_the_first(s: Seq<char>, sep: char)
    ensures
        ({
            let r = before_first(s, sep);
            &&& r.len() <= s.len()
            &&& r == s.take(r.len() as int)
            &&& !r.contains(sep)
            &&& r.len() < s.len() ==> s[r.len() as int] == sep
        }),
    decreases s.len(),
{
    let r = before_first(s, sep);
    if s.len() > 0 && s[0] != sep {
        let rest = s.skip(1);
        law_before_the_first(rest, sep);
        let tail = before_first(rest, sep);
        assert(r =~= s.take(r.len() as int)) by {
            assert forall|i: int| 0 < i < r.len() implies r[i] == s[i] by {
                assert(tail[i - 1] == rest[i - 1]);
            }
        }
        assert(!r.contains(sep)) by {
            if r.contains(sep) {
                let i = choose|i: int| 0 <= i < r.len() && r[i] == sep;
                assert(i > 0);
                assert(tail[i - 1] == sep);
                assert(tail.contains(sep));
            }
        }
        if r.len() < s.len() {
            assert(rest[tail.len() as int] == sep);
        }
    } else {
        assert(s.take(0) =~= r);
    }
}

/// What stands behind the last separator has none, and follows one or nothing.
pub proof fn law_behind_the_last(s: Seq<char>, sep: char)
    ensures
        ({
            let r = after_last(s, sep);
            &&& r.len() <= s.len()
            &&& r == s.skip(s.len() - r.len())
            &&& !r.contains(sep)
            &&& r.len() < s.len() ==> s[s.len() - r.len() - 1] == sep
        }),
    decreases s.len(),
{
    let r = after_last(s, sep);
    if s.len() > 0 && s.last() != sep {
        let rest = s.drop_last();
        law_behind_the_last(rest, sep);
        let head = after_last(rest, sep);
        let from = s.len() - r.len();
        assert(head == rest.skip(from));
        assert(r =~= s.skip(from)) by {
            assert forall|i: int| 0 <= i < head.len() implies r[i] == s[from + i] by {
                assert(head[i] == rest[from + i]);
            }
        }
        assert(!r.contains(sep)) by {
            if r.contains(sep) {
                let i = choose|i: int| 0 <= i < r.len() && r[i] == sep;
                assert(i < head.len());
                assert(head[i] == sep);
                assert(head.contains(sep));
            }
        }
    } else {
        assert(s.skip(s.len() as int) =~= r);
    }
}

/// A text without the separator stands as a whole before the first and behind the last.
pub proof fn lemma_no_separator(s: Seq<char>, sep: char)
    requires
        forall|i: int| 0 <= i < s.len() ==> s[i] != sep,
    ensures
        before_first(s, sep) == s,
        after_last(s, sep) == s,
{
    law_before_the_first(s, sep);
    law_behind_the_last(s, sep);
    assert(s.take(s.len() as int) =~= s);
    assert(s.skip(0) =~= s);
}

/// What stands before a separator that is the first.
pub proof fn lemma_before_first_of(a: Seq<char>, b: Seq<char>, sep: char)
    requires
        before_first(a, sep) == a,
    ensures
        before_first(a + seq![sep] + b, sep) == a,
{
    let s = a + seq![sep] + b;
    law_before_the_first(a, sep);
    law_before_the_first(s, sep);
    let r = before_first(s, sep);
    assert(s[a.len() as int] == sep);
    if r.len() > a.len() {
        assert(r[a.len() as int] == sep);
        assert(r.contains(sep));
    }
    if r.len() < a.len() {
        assert(a[r.len() as int] == sep);
        assert(a.contains(sep));
    }
    assert(r =~= a);
}

/// The pieces of a text hold no separator, and with separators between them they are the
/// text.
pub proof fn law_pieces_make_the_text(s: Seq<char>, sep: char)
    ensures
        joined(split_on(s, sep), seq![sep]) == s,
        split_on(s, sep).len() > 0,
        forall|i: int| 0 <= i < split_on(s, sep).len() ==> !(#[trigger] split_on(s, sep)[i]).contains(
            sep,
        ),
    decreases s.len(),
{
    let pieces = split_on(s, sep);
    if s.len() > 0 {
        let rest = s.drop_last();
        let before = split_on(rest, sep);
        law_pieces_make_the_text(rest, sep);
        if s.last() == sep {
            assert(pieces.drop_last() =~= before);
            assert(joined(pieces, seq![sep]) =~= rest + seq![sep] + Seq::<char>::empty());
            assert(s =~= rest + seq![sep] + Seq::<char>::empty());
        } else {
            let last = before.last().push(s.last());
            assert(pieces.last() == last);
            assert(!last.contains(sep)) by {
                assert(!before[before.len() - 1].contains(sep));
                if last.contains(sep) {
                    let i = choose|i: int| 0 <= i < last.len() && last[i] == sep;
                    assert(before.last()[i] == sep);
                    assert(before.last().contains(sep));
                }
            }
            assert forall|i: int| 0 <= i < pieces.len() implies !(#[trigger] pieces[i]).contains(
                sep,
            ) by {
                if i < pieces.len() - 1 {
                    assert(pieces[i] == before[i]);
                }
            }
            assert(pieces.drop_last() =~= before.drop_last());
            if before.len() == 1 {
                assert(s =~= before[0].push(s.last()));
            } else {
                assert(before.len() > 1);
                assert(rest == joined(before.drop_last(), seq![sep]) + seq![sep] + before.last());
                assert(s =~= rest.push(s.last()));
                assert(s =~= joined(before.drop_last(), seq![sep]) + seq![sep] + last);
            }
        }
    } else {
        assert(joined(pieces, seq![sep]) =~= s);
        assert(pieces[0] =~= Seq::<char>::empty());
    }
}

/// Parts are joined in their order with the separator between them.
pub proof fn law_joining(parts: Seq<Seq<char>>, part: Seq<char>, sep: Seq<char>)
    ensures
        joined(Seq::empty(), sep) == Seq::<char>::empty(),
        joined(seq![part], sep) == part,
        parts.len() > 0 ==> joined(parts.push(part), sep) == joined(parts, sep) + sep + part,
{
    assert(parts.push(part).drop_last() =~= parts);
}

/// A number is written in digits that stand for it, without a zero before it.
pub proof fn law_decimal_digits(n: nat)
    ensures
        forall|i: int| 0 <= i < decimal(n).len() ==> '0' <= #[trigger] decimal(n)[i] <= '9',
        decimal(n).len() > 0,
        n >= 10 ==> decimal(n)[0] != '0' && decimal(n).drop_last() == decimal(n / 10),
        (decimal(n).last() as int - 48) == n % 10,
    decreases n,
{
    if n >= 10 {
        law_decimal_digits(n / 10);
        assert(decimal(n).drop_last() =~= decimal(n / 10));
        if n / 10 < 10 {
            assert(decimal(n / 10)[0] as int == 48 + n / 10);
        }
    } else {
        assert(decimal(n).drop_last() =~= Seq::<char>::empty());
    }
}

/// Texts are in the order of a dictionary: the first character that differs decides, and a
/// text comes before those that go on from it.
pub proof fn law_dictionary_order(
    common: Seq<char>,
    x: char,
    y: char,
    a: Seq<char>,
    b: Seq<char>,
)
    ensures
        x < y ==> text_before(common + seq![x] + a, common + seq![y] + b),
        x < y ==> !text_before(common + seq![y] + b, common + seq![x] + a),
        text_before(common, common + seq![y] + b),
        !text_before(common + seq![y] + b, common),
        !text_before(common, common),
    decreases common.len(),
{
    let l = common + seq![x] + a;
    let r = common + seq![y] + b;
    if common.len() > 0 {
        let c = common.skip(1);
        law_dictionary_order(c, x, y, a, b);
        assert(l.skip(1) =~= c + seq![x] + a);
        assert(r.skip(1) =~= c + seq![y] + b);
    }
}

/// A prefix stands at the beginning, and a part anywhere.
pub proof fn law_prefixes_and_parts(a: Seq<char>, b: Seq<char>, c: Seq<char>)
    ensures
        has_prefix(a + b, a),
        has_part(a + b + c, b),
        has_prefix(a, b) ==> exists|rest: Seq<char>| a == #[trigger] (b + rest),
        has_part(a, b) ==> exists|head: Seq<char>, tail: Seq<char>| a == #[trigger] (head + b + tail),
{
    assert((a + b).take(a.len() as int) =~= a);
    let s = a + b + c;
    assert(s.skip(a.len() as int).take(b.len() as int) =~= b);
    if has_prefix(a, b) {
        assert(a =~= b + a.skip(b.len() as int));
    }
    if has_part(a, b) {
        let i = choose|i: int| 0 <= i <= a.len() && has_prefix(#[trigger] a.skip(i), b);
        let rest = a.skip(i);
        assert(rest.take(b.len() as int) == b);
        assert(a =~= a.take(i) + b + rest.skip(b.len() as int));
    }
}

} // verus!
