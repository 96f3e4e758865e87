//! Letters, symbols and wiring tables: what every component of the machine shares.

use regex::Regex;
use vstd::prelude::*;
use vstd::string::*;

verus! {

/// The pattern that a character must match to be enciphered.
pub const LETTER_PATTERN: &'static str = "^[a-zA-Z]$";

/// A symbol is one of the 26 numbers that stand for the letters `A` to `Z`.
pub open spec fn is_symbol(s: int) -> bool {
    0 <= s < 26
}

/// The characters that the machine enciphers: the 52 ASCII letters.
pub open spec fn is_letter(c: char) -> bool {
    ('a' <= c && c <= 'z') || ('A' <= c && c <= 'Z')
}

/// The symbol of a letter, whatever its case: `A` and `a` are 0, `Z` and `z` are 25.
pub open spec fn symbol_of(c: char) -> int
    recommends
        is_letter(c),
{
    if 'a' <= c && c <= 'z' {
        c as int - 'a' as int
    } else {
        c as int - 'A' as int
    }
}

/// The upper-case letter that a symbol stands for.
pub open spec fn letter_of(s: int) -> char
    recommends
        is_symbol(s),
{
    ('A' as int + s) as char
}

/// A character with ASCII lower-case letters turned into upper case.
pub open spec fn to_upper(c: char) -> char {
    if 'a' <= c && c <= 'z' {
        letter_of(symbol_of(c))
    } else {
        c
    }
}

/// A wiring table sends each of the 26 symbols to a symbol.
pub open spec fn is_wiring(table: Seq<u8>) -> bool {
    &&& table.len() == 26
    &&& forall|s: int| 0 <= s < 26 ==> #[trigger] table[s] < 26
}

/// Two wiring tables that undo each other, in both directions.
pub open spec fn are_inverse_wirings(there: Seq<u8>, back: Seq<u8>) -> bool {
    &&& is_wiring(there)
    &&& is_wiring(back)
    &&& forall|s: int| 0 <= s < 26 ==> back[#[trigger] there[s] as int] == s
    &&& forall|s: int| 0 <= s < 26 ==> there[#[trigger] back[s] as int] == s
}

/// Compiles `pattern` with `regex::Regex::new` and asks `Regex::is_match` whether
/// the string made of the single character `c` matches it.
///
/// The contract speaks of one pattern only, `^[a-zA-Z]$`: a haystack matches it
/// when it consists of exactly one character from the ranges `a-z` and `A-Z`,
/// so for a one-character haystack the answer is whether `c` is an ASCII letter.
#[verifier::external_body]
fn matches_letter_pattern(pattern: &str, c: char) -> (matched: bool)
    requires
        pattern@ == LETTER_PATTERN@,
    ensures
        matched == is_letter(c),
{
    let mut buf = [0u8; 4];
    match Regex::new(pattern) {
        Ok(re) => re.is_match(c.encode_utf8(&mut buf)),
        Err(_) => false,
    }
}

/// The symbol of `c` if it is a letter, and nothing otherwise.
pub fn letter_symbol(c: char) -> (symbol: Option<u8>)
    ensures
        is_letter(c) ==> symbol == Some(symbol_of(c) as u8) && is_symbol(symbol_of(c)),
        !is_letter(c) ==> symbol is None,
{
    if !matches_letter_pattern(LETTER_PATTERN, c) {
        return None;
    }
    let code: u32 = c as u32;
    if code >= 97 {
        Some((code - 97) as u8)
    } else {
        Some((code - 65) as u8)
    }
}

/// Whether a character is a letter, found by comparing it with the ends of
/// the two ranges.
pub fn is_letter_char(c: char) -> (letter: bool)
    ensures
        letter == is_letter(c),
{
    let code: u32 = c as u32;
    (97 <= code && code <= 122) || (65 <= code && code <= 90)
}

/// A character with ASCII lower-case letters turned into upper case.
pub fn upper_case(c: char) -> (upper: char)
    ensures
        upper == to_upper(c),
{
    let code: u32 = c as u32;
    if 97 <= code && code <= 122 {
        ((code - 32) as u8) as char
    } else {
        c
    }
}

/// The upper-case letter of a symbol.
pub fn symbol_letter(symbol: u8) -> (c: char)
    requires
        symbol < 26,
    ensures
        c == letter_of(symbol as int),
        is_letter(c),
        symbol_of(c) == symbol,
{
    (symbol + 65) as char
}

/// Whether two strings hold the same characters.
pub fn str_eq(a: &str, b: &str) -> (same: bool)
    ensures
        same == (a@ == b@),
{
    let n: usize = a.unicode_len();
    if n != b.unicode_len() {
        return false;
    }
    let mut i: usize = 0;
    while i < n
        invariant
            i <= n,
            n == a@.len(),
            n == b@.len(),
            forall|j: int| 0 <= j < i ==> a@[j] == b@[j],
        decreases n - i,
    {
        if a.get_char(i) != b.get_char(i) {
            return false;
        }
        i += 1;
    }
    assert(a@ =~= b@);
    true
}

/// Upper-casing a letter keeps its symbol, and gives the letter of that symbol.
pub proof fn lemma_letter_round_trip(c: char)
    requires
        is_letter(c),
    ensures
        is_symbol(symbol_of(c)),
        letter_of(symbol_of(c)) == to_upper(c),
        is_letter(to_upper(c)),
        symbol_of(to_upper(c)) == symbol_of(c),
{
}

/// The letter of a symbol is an upper-case letter with that symbol.
pub proof fn lemma_symbol_round_trip(s: int)
    requires
        is_symbol(s),
    ensures
        is_letter(letter_of(s)),
        symbol_of(letter_of(s)) == s,
        to_upper(letter_of(s)) == letter_of(s),
{
}

} // verus!
