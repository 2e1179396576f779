//! The key that shows the key bindings.

use vstd::prelude::*;
use crate::text;
use crate::text::is_whitespace;

verus! {

/// The modifiers that were held with a key.
#[derive(Clone, Copy, Debug, PartialEq, Eq, Structural)]
pub struct Modifiers {
    pub shift: bool,
    pub control: bool,
    pub alt: bool,
    pub logo: bool,
    pub hyper: bool,
    pub meta: bool,
}

/// A key, by the numbers of the window system.
#[derive(Clone, Copy, Debug, PartialEq, Eq, Structural)]
pub struct Key {
    pub value: u32,
    /// The number of the key in upper case.
    pub upper: u32,
}

/// A key that was pressed.
#[derive(Clone, Copy, Debug, PartialEq, Eq, Structural)]
pub struct PressedKey {
    pub key: Key,
    /// The character of the key.
    pub character: Option<char>,
    /// The number of the key without any modifier, where the keyboard's layout is known.
    pub unshifted: Option<u32>,
}

/// What `char::is_alphanumeric` returns.
pub uninterp spec fn alphanumeric(c: char) -> bool;

/// `char::is_alphanumeric` of the standard library: whether the character is a letter or a
/// number. Of ASCII characters those are the letters and the digits; of the others the
/// result is named only.
#[verifier::external_body]
fn is_alphanumeric(c: char) -> (r: bool)
    ensures
        r == alphanumeric(c),
        c as u32 <= 127 ==> r == text::is_alnum(c),
{
    c.is_alphanumeric()
}

/// Whether a character is neither a letter or number nor white space, given which of the
/// first it is.
pub open spec fn is_symbol(character: Option<char>, alphanumeric: bool) -> bool {
    match character {
        Some(c) => !alphanumeric && !text::is_space(c),
        None => false,
    }
}

/// Whether a key is the expected one. `symbol` says whether it stands for a symbol.
pub open spec fn key_matches(
    expected: Key,
    expected_modifiers: Modifiers,
    pressed: PressedKey,
    modifiers: Modifiers,
    symbol: bool,
) -> bool {
    let same_key = pressed.key.value == expected.value || (expected_modifiers.shift && (
    pressed.key.upper == expected.upper || pressed.unshifted == Some(expected.value)));
    let held = Modifiers {
        shift: modifiers.shift && (expected_modifiers.shift || !symbol),
        ..modifiers
    };
    same_key && held == expected_modifiers
}

/// Whether a key is the expected one, given whether it stands for a symbol: the shift that
/// a symbol takes to type is not counted, unless it is expected.
pub fn key_matches_as(
    expected: Key,
    expected_modifiers: Modifiers,
    pressed: PressedKey,
    modifiers: Modifiers,
    symbol: bool,
) -> (r: bool)
    ensures
        r == key_matches(expected, expected_modifiers, pressed, modifiers, symbol),
{
    let direct = pressed.key.value == expected.value;
    let letter = expected_modifiers.shift && pressed.key.upper == expected.upper;
    let unshifted = match pressed.unshifted {
        Some(value) => expected_modifiers.shift && value == expected.value,
        None => false,
    };
    if !direct && !letter && !unshifted {
        return false;
    }
    let mut held = modifiers;
    if !expected_modifiers.shift && symbol {
        held.shift = false;
    }
    held == expected_modifiers
}

/// Whether a key that was pressed is the one that shows the key bindings.
pub fn help_key_matches(
    expected: Key,
    expected_modifiers: Modifiers,
    pressed: PressedKey,
    modifiers: Modifiers,
) -> (r: bool)
    ensures
        r == key_matches(
            expected,
            expected_modifiers,
            pressed,
            modifiers,
            is_symbol(
                pressed.character,
                pressed.character is Some && alphanumeric(pressed.character->0),
            ),
        ),
{
    let symbol = match pressed.character {
        Some(c) => !is_alphanumeric(c) && !is_whitespace(c),
        None => false,
    };
    key_matches_as(expected, expected_modifiers, pressed, modifiers, symbol)
}

/// The help opens for the key that it is bound to, with the modifiers that belong to it and no
/// others. Shift that a symbol needs to be typed does not count; Shift that is part of the
/// binding does, and the key is then known by its capital or by what it is without Shift.
pub proof fn law_the_key_of_the_help(
    expected: Key,
    wanted: Modifiers,
    pressed: PressedKey,
    held: Modifiers,
    symbol: bool,
)
    ensures
        pressed.key.value == expected.value && held == wanted && (wanted.shift || !held.shift)
            ==> key_matches(expected, wanted, pressed, held, symbol),
        held.control != wanted.control || held.alt != wanted.alt || held.logo != wanted.logo
            || held.hyper != wanted.hyper || held.meta != wanted.meta ==> !key_matches(
            expected,
            wanted,
            pressed,
            held,
            symbol,
        ),
        pressed.key.value == expected.value && !wanted.shift && symbol && held == (Modifiers {
            shift: held.shift,
            ..wanted
        }) ==> key_matches(expected, wanted, pressed, held, symbol),
        !wanted.shift && !symbol && held.shift ==> !key_matches(
            expected,
            wanted,
            pressed,
            held,
            symbol,
        ),
        wanted.shift && !held.shift ==> !key_matches(expected, wanted, pressed, held, symbol),
        wanted.shift && held == wanted && pressed.key.upper == expected.upper ==> key_matches(
            expected,
            wanted,
            pressed,
            held,
            symbol,
        ),
        wanted.shift && held == wanted && pressed.unshifted == Some(expected.value) ==> key_matches(
            expected,
            wanted,
            pressed,
            held,
            symbol,
        ),
        !wanted.shift && pressed.key.value != expected.value ==> !key_matches(
            expected,
            wanted,
            pressed,
            held,
            symbol,
        ),
{
}

/// A symbol is a character that is neither a letter or digit nor white space.
pub proof fn law_symbols(c: char)
    ensures
        !is_symbol(None, true) && !is_symbol(None, false),
        !is_symbol(Some(c), true),
        is_symbol(Some(c), false) == !text::is_space(c),
{
}

} // verus!
