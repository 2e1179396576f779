//! Small rules of the running window: messages, registrations and the end.

use vstd::prelude::*;
use vstd::string::*;
use crate::palette::changes::{Notice, NoticeView};
use crate::text;
use crate::text::{chars_of, same_text, string_of, text_before_first};

verus! {

/// For how many seconds a message is shown: one that is no error longer, so that a result
/// can be read.
pub fn toast_timeout(is_error: bool) -> (r: u32)
    ensures
        r == if is_error {
            3u32
        } else {
            6u32
        },
{
    if is_error {
        3
    } else {
        6
    }
}

/// Keeps a second registration of a project from starting while one is under way.
#[derive(Clone, Copy, Debug, PartialEq, Eq, Structural)]
pub struct ProjectRegistration {
    pub in_flight: bool,
}

impl ProjectRegistration {
    /// Begins a registration, unless one is under way.
    pub fn begin(&mut self) -> (r: bool)
        ensures
            r == !old(self).in_flight,
            final(self).in_flight,
    {
        let free = !self.in_flight;
        self.in_flight = true;
        free
    }

    /// Ends a registration.
    pub fn end(&mut self)
        ensures
            !final(self).in_flight,
    {
        self.in_flight = false;
    }
}

/// What the user is told of a registration that ended. The result is the project's name.
pub open spec fn registration_notice(result: Result<Seq<char>, Seq<char>>) -> NoticeView {
    match result {
        Ok(name) => NoticeView { message: "Registered project "@ + name, is_error: false },
        Err(error) => NoticeView {
            message: "Could not register project: "@ + error,
            is_error: true,
        },
    }
}

/// What the user is told of a registration that ended. The result is the project's name.
pub fn finish_project_registration(result: &Result<String, String>) -> (r: Notice)
    ensures
        r.deep_view() == registration_notice(
            match *result {
                Ok(name) => Ok(name@),
                Err(error) => Err(error@),
            },
        ),
{
    match result {
        Ok(name) => {
            let mut message = "Registered project ".to_owned();
            message.append(name.as_str());
            Notice { message, is_error: false }
        },
        Err(error) => {
            let mut message = "Could not register project: ".to_owned();
            message.append(error.as_str());
            Notice { message, is_error: true }
        },
    }
}

/// Whether the socket is to be removed now: the first time only.
pub fn cleanup_socket_once(cleaned: &mut bool, has_socket: bool) -> (r: bool)
    ensures
        r == (!*old(cleaned) && has_socket),
        *final(cleaned),
{
    if *cleaned {
        return false;
    }
    *cleaned = true;
    has_socket
}

/// Whether a name is among the names.
pub open spec fn named_in(names: Seq<Seq<char>>, name: Seq<char>) -> bool {
    names.contains(name)
}

/// The names that are not among the others.
pub open spec fn missing_from(names: Seq<Seq<char>>, others: Seq<Seq<char>>) -> Seq<Seq<char>>
    decreases names.len(),
{
    if names.len() == 0 {
        Seq::empty()
    } else {
        let before = missing_from(names.drop_last(), others);
        if named_in(others, names.last()) {
            before
        } else {
            before.push(names.last())
        }
    }
}

/// Whether a name is among the names.
fn has_name(names: &Vec<String>, name: &str) -> (r: bool)
    ensures
        r == named_in(names.deep_view(), name@),
{
    let ghost all = names.deep_view();
    let mut i: usize = 0;
    while i < names.len()
        invariant
            all == names.deep_view(),
            i <= names.len(),
            forall|k: int| 0 <= k < i ==> all[k] != name@,
        decreases names.len() - i,
    {
        assert(all[i as int] == names[i as int]@);
        if same_text(names[i].as_str(), name) {
            return true;
        }
        i += 1;
    }
    false
}

/// The names that are not among the others.
fn find_missing(names: &Vec<String>, others: &Vec<String>) -> (r: Vec<String>)
    ensures
        r.deep_view() == missing_from(names.deep_view(), others.deep_view()),
{
    let ghost all = names.deep_view();
    let mut r: Vec<String> = Vec::new();
    let mut i: usize = 0;
    assert(r.deep_view() =~= missing_from(all.take(0), others.deep_view()));
    while i < names.len()
        invariant
            all == names.deep_view(),
            i <= names.len(),
            r.deep_view() == missing_from(all.take(i as int), others.deep_view()),
        decreases names.len() - i,
    {
        assert(all.take(i + 1).drop_last() =~= all.take(i as int));
        assert(all[i as int] == names[i as int]@);
        if !has_name(others, names[i].as_str()) {
            let ghost before = r.deep_view();
            r.push(names[i].clone());
            assert(r.deep_view() =~= before.push(all[i as int]));
        }
        i += 1;
    }
    assert(all.take(i as int) =~= all);
    r
}

/// How the window's actions and the ones that keys can be bound to disagree.
#[derive(Clone, Debug, PartialEq, Eq)]
pub enum ActionContractBreach {
    /// Actions of the window that no key can be bound to.
    Unexpected(Vec<String>),
    /// Actions that keys can be bound to, which the window does not have.
    Missing(Vec<String>),
}

/// Checks that the window has exactly the actions that keys can be bound to.
pub fn validate_window_action_contract(actual: &Vec<String>, registered: &Vec<String>) -> (r: Result<
    (),
    ActionContractBreach,
>)
    ensures
        ({
            let unexpected = missing_from(actual.deep_view(), registered.deep_view());
            let missing = missing_from(registered.deep_view(), actual.deep_view());
            match r {
                Ok(_) => unexpected.len() == 0 && missing.len() == 0,
                Err(ActionContractBreach::Unexpected(names)) => unexpected.len() > 0
                    && names.deep_view() == unexpected,
                Err(ActionContractBreach::Missing(names)) => unexpected.len() == 0 && missing.len()
                    > 0 && names.deep_view() == missing,
            }
        }),
{
    let unexpected = find_missing(actual, registered);
    if unexpected.len() > 0 {
        return Err(ActionContractBreach::Unexpected(unexpected));
    }
    let missing = find_missing(registered, actual);
    if missing.len() > 0 {
        return Err(ActionContractBreach::Missing(missing));
    }
    Ok(())
}

/// Nothing is missing exactly where every name is among the others.
pub proof fn law_nothing_is_missing(names: Seq<Seq<char>>, others: Seq<Seq<char>>)
    ensures
        missing_from(names, others).len() == 0 <==> forall|i: int|
            0 <= i < names.len() ==> named_in(others, #[trigger] names[i]),
    decreases names.len(),
{
    if names.len() > 0 {
        let short = names.drop_last();
        law_nothing_is_missing(short, others);
        if forall|i: int| 0 <= i < names.len() ==> named_in(others, #[trigger] names[i]) {
            assert forall|i: int| 0 <= i < short.len() implies named_in(
                others,
                #[trigger] short[i],
            ) by {
                assert(names[i] == short[i]);
            }
            assert(named_in(others, names[names.len() - 1]));
        }
        if missing_from(names, others).len() == 0 {
            assert forall|i: int| 0 <= i < names.len() implies named_in(
                others,
                #[trigger] names[i],
            ) by {
                if i < short.len() {
                    assert(short[i] == names[i]);
                }
            }
        }
    }
}

/// Whether a character is a decimal digit.
pub open spec fn is_digit(c: char) -> bool {
    '0' <= c && c <= '9'
}

/// The number that decimal digits write.
pub open spec fn digits_value(digits: Seq<char>) -> nat
    decreases digits.len(),
{
    if digits.len() == 0 {
        0
    } else {
        digits_value(digits.drop_last()) * 10 + (digits.last() as nat - '0' as nat) as nat
    }
}

/// The digits of a number that may have a plus sign before it.
pub open spec fn digits_of(s: Seq<char>) -> Seq<char> {
    if s.len() > 0 && s[0] == '+' {
        s.skip(1)
    } else {
        s
    }
}

/// The number that a text writes, where it is one and fits.
pub open spec fn number_of(s: Seq<char>) -> Option<u32> {
    let digits = digits_of(s);
    if digits.len() > 0 && (forall|i: int| 0 <= i < digits.len() ==> is_digit(#[trigger] digits[i]))
        && digits_value(digits) <= u32::MAX {
        Some(digits_value(digits) as u32)
    } else {
        None
    }
}

/// More digits write no smaller number.
proof fn lemma_digits_grow(digits: Seq<char>, n: int)
    requires
        0 <= n <= digits.len(),
    ensures
        digits_value(digits.take(n)) <= digits_value(digits),
    decreases digits.len(),
{
    if n < digits.len() {
        let short = digits.drop_last();
        lemma_digits_grow(short, n);
        assert(short.take(n) =~= digits.take(n));
    } else {
        assert(digits.take(n) =~= digits);
    }
}

/// The number that a text writes in decimal digits, with a plus sign before it or without,
/// where it fits.
pub fn parse_u32(s: &str) -> (r: Option<u32>)
    ensures
        r == number_of(s@),
{
    let chars = chars_of(s);
    let start: usize = if chars.len() > 0 && chars[0] == '+' {
        1
    } else {
        0
    };
    let ghost digits = digits_of(s@);
    assert(digits =~= chars@.skip(start as int));
    if start == chars.len() {
        return None;
    }
    let mut value: u64 = 0;
    let mut i: usize = start;
    assert(digits.take(0) =~= Seq::<char>::empty());
    while i < chars.len()
        invariant
            chars@ == s@,
            start <= i <= chars.len(),
            start <= 1,
            digits == digits_of(s@),
            digits == chars@.skip(start as int),
            value <= u32::MAX,
            value == digits_value(digits.take(i - start)),
            forall|k: int| 0 <= k < i - start ==> is_digit(#[trigger] digits[k]),
        decreases chars.len() - i,
    {
        let c = chars[i];
        assert(digits[i - start] == c);
        if !('0' <= c && c <= '9') {
            assert(!is_digit(digits[i - start]));
            return None;
        }
        assert(digits.take(i - start + 1).drop_last() =~= digits.take(i - start));
        value = value * 10 + (c as u64 - '0' as u64);
        if value > u32::MAX as u64 {
            proof {
                lemma_digits_grow(digits, i - start + 1);
            }
            return None;
        }
        i += 1;
    }
    assert(digits.take(i - start) =~= digits);
    Some(value as u32)
}

/// A pane that a notification leads to: the numbers of the tab and the pane, with a colon
/// between them.
pub open spec fn focus_target(s: Seq<char>) -> Option<(u32, u32)> {
    let head = text::before_first(s, ':');
    if head.len() == s.len() {
        None
    } else {
        match (number_of(head), number_of(s.skip(head.len() as int + 1))) {
            (Some(tab_id), Some(pane_id)) => Some((tab_id, pane_id)),
            _ => None,
        }
    }
}

/// The pane that a notification leads to, where it names one.
pub fn parse_focus_target(target: &str) -> (r: Option<(u32, u32)>)
    ensures
        r == focus_target(target@),
{
    let head = text_before_first(target, ':');
    let chars = chars_of(target);
    let head_len: usize = chars_of(head.as_str()).len();
    proof {
        lemma_before_first_len(target@, ':');
    }
    if head_len == chars.len() {
        return None;
    }
    let tail = string_of(&chars, head_len + 1, chars.len());
    assert(tail@ =~= target@.skip(head@.len() as int + 1));
    match (parse_u32(head.as_str()), parse_u32(tail.as_str())) {
        (Some(tab_id), Some(pane_id)) => Some((tab_id, pane_id)),
        _ => None,
    }
}

/// What precedes the first separator is no longer than the text.
proof fn lemma_before_first_len(s: Seq<char>, sep: char)
    ensures
        text::before_first(s, sep).len() <= s.len(),
    decreases s.len(),
{
    if s.len() > 0 && s[0] != sep {
        lemma_before_first_len(s.skip(1), sep);
    }
}

/// A registration that ended is told with the project's name, or as an error with its cause.
pub proof fn law_endings_of_registrations(text: Seq<char>)
    ensures
        registration_notice(Ok(text)) == (NoticeView {
            message: "Registered project "@ + text,
            is_error: false,
        }),
        registration_notice(Err(text)) == (NoticeView {
            message: "Could not register project: "@ + text,
            is_error: true,
        }),
{
}

/// The names that are missing stand in their order, each that the others lack and no others.
pub proof fn law_missing_names(names: Seq<Seq<char>>, name: Seq<char>, others: Seq<Seq<char>>)
    ensures
        missing_from(Seq::empty(), others) == Seq::<Seq<char>>::empty(),
        others.contains(name) ==> missing_from(names.push(name), others) == missing_from(
            names,
            others,
        ),
        !others.contains(name) ==> missing_from(names.push(name), others) == missing_from(
            names,
            others,
        ).push(name),
{
    assert(names.push(name).drop_last() =~= names);
}

/// A number that is written in decimal digits is read as that number, with a plus sign before
/// it or without; other texts and too large numbers are not read.
pub proof fn law_numbers_are_read_as_written(n: u32, s: Seq<char>, c: char)
    requires
        !('0' <= c <= '9'),
        c != '+',
    ensures
        number_of(text::decimal(n as nat)) == Some(n),
        number_of(seq!['+'] + text::decimal(n as nat)) == Some(n),
        number_of(Seq::empty()) is None,
        number_of(s.push(c)) is None,
        number_of(seq![c] + s) is None,
{
    let digits = text::decimal(n as nat);
    text::law_decimal_digits(n as nat);
    lemma_digits_stand_for(n as nat);
    assert(digits[0] != '+') by {
        assert('0' <= digits[0]);
    }
    assert forall|i: int| 0 <= i < digits.len() implies is_digit(#[trigger] digits[i]) by {
        assert('0' <= digits[i] <= '9');
    }
    assert((seq!['+'] + digits).skip(1) =~= digits);
    let behind = digits_of(s.push(c));
    assert(behind[behind.len() - 1] == c);
    assert(!is_digit(behind[behind.len() - 1]));
    let before = seq![c] + s;
    assert(digits_of(before)[0] == c);
    assert(!is_digit(digits_of(before)[0]));
}

/// The digits of a number stand for it.
proof fn lemma_digits_stand_for(n: nat)
    ensures
        digits_value(text::decimal(n)) == n,
    decreases n,
{
    let digits = text::decimal(n);
    text::law_decimal_digits(n);
    if n < 10 {
        assert(digits.drop_last() =~= Seq::<char>::empty());
        assert(digits_value(digits.drop_last()) == 0);
    } else {
        lemma_digits_stand_for(n / 10);
    }
}

/// A notification leads to the tab and the pane that it names.
pub proof fn law_notifications_lead_to_panes(tab_id: u32, pane_id: u32, other: Seq<char>)
    requires
        !other.contains(':'),
    ensures
        focus_target(text::decimal(tab_id as nat) + seq![':'] + text::decimal(pane_id as nat))
            == Some((tab_id, pane_id)),
        focus_target(other) is None,
{
    let head = text::decimal(tab_id as nat);
    let tail = text::decimal(pane_id as nat);
    let s = head + seq![':'] + tail;
    text::law_decimal_digits(tab_id as nat);
    assert forall|i: int| 0 <= i < head.len() implies head[i] != ':' by {
        assert('0' <= head[i] <= '9');
    }
    text::lemma_no_separator(head, ':');
    text::lemma_before_first_of(head, tail, ':');
    assert(s.skip(head.len() as int + 1) =~= tail);
    law_numbers_are_read_as_written(tab_id, Seq::empty(), ':');
    law_numbers_are_read_as_written(pane_id, Seq::empty(), ':');
    assert forall|i: int| 0 <= i < other.len() implies other[i] != ':' by {
        assert(other.contains(other[i]));
    }
    text::lemma_no_separator(other, ':');
}

} // verus!
