//! Contracts for the character and string operations of the standard
//! library that the board and its pieces rely on.

use vstd::prelude::*;

verus! {

/// The value of `c` as a digit, counting `0`-`9` as 0 to 9 and the letters
/// `a`-`z` and `A`-`Z` as 10 to 35; `None` for every other character.
pub open spec fn digit_value(c: char) -> Option<int> {
    if '0' <= c && c <= '9' {
        Some(c as int - '0' as int)
    } else if 'a' <= c && c <= 'z' {
        Some(c as int - 'a' as int + 10)
    } else if 'A' <= c && c <= 'Z' {
        Some(c as int - 'A' as int + 10)
    } else {
        None
    }
}

/// The digit that `c` stands for in the given radix, if it stands for one.
pub open spec fn digit_in_radix(c: char, radix: u32) -> Option<u32> {
    match digit_value(c) {
        Some(d) => if d < radix {
            Some(d as u32)
        } else {
            None
        },
        None => None,
    }
}

/// `char::to_digit`: the digit value of a character in a radix from 2 to 36
/// (outside that range the function panics), where only `0`-`9`, `a`-`z` and
/// `A`-`Z` count as digits, and `None` when the character is no digit of
/// that radix.
pub assume_specification[ char::to_digit ](c: char, radix: u32) -> (digit: Option<u32>)
    requires
        2 <= radix <= 36,
    ensures
        digit == digit_in_radix(c, radix),
;

/// Whether a character has the Unicode property `Lowercase`.
pub uninterp spec fn unicode_lowercase(c: char) -> bool;

/// `char::is_lowercase`: membership in the Unicode property `Lowercase`,
/// which among the ASCII characters holds of exactly `a`-`z`.
pub assume_specification[ char::is_lowercase ](c: char) -> (lower: bool)
    ensures
        lower == unicode_lowercase(c),
        (c as u32) < 128 ==> lower == ('a' <= c && c <= 'z'),
;

/// The ASCII upper-case form of a character: `a`-`z` become `A`-`Z`, every
/// other character stays as it is.
pub open spec fn ascii_uppercase(c: char) -> char {
    if 'a' <= c && c <= 'z' {
        (c as u32 - 32) as char
    } else {
        c
    }
}

/// `char::to_ascii_uppercase`: maps the ASCII letters `a`-`z` to `A`-`Z` and
/// leaves all other characters unchanged.
pub assume_specification[ char::to_ascii_uppercase ](c: &char) -> (upper: char)
    ensures
        upper == ascii_uppercase(*c),
;

/// `String::push`: appends one character to the end of the string.
pub assume_specification[ String::push ](s: &mut String, c: char)
    ensures
        final(s)@ == old(s)@.push(c),
;

/// `String::pop`: removes the last character of the string and returns it,
/// or returns `None` and leaves the string alone where it is empty.
pub assume_specification[ String::pop ](s: &mut String) -> (last: Option<char>)
    ensures
        old(s)@.len() == 0 ==> last is None && final(s)@ == old(s)@,
        old(s)@.len() > 0 ==> last == Some(old(s)@.last()) && final(s)@ == old(s)@.drop_last(),
;

/// `String::clear`: removes every character of the string.
pub assume_specification[ String::clear ](s: &mut String)
    ensures
        final(s)@ == Seq::<char>::empty(),
;

} // verus!
