//! The plugboard: cables that swap pairs of letters before and after the rotors.

use crate::alphabet::{is_letter, is_symbol, letter_symbol, symbol_of};
use std::collections::HashMap;
use vstd::prelude::*;
use vstd::std_specs::hash::*;
use vstd::string::*;

verus! {

/// How the refusal of a character that is no letter begins.
pub const NOT_ALPHABETIC: &'static str =
    "Error in PlugBoard configuration. Can only map alphabetic characters. Received ";

/// How the refusal of a first letter that is wired already begins.
pub const DUPLICATE_FIRST: &'static str = "Error in PlugBoard configuration. Duplicate mapping for ";

/// How the refusal of a second letter that is wired already begins.
pub const DUPLICATE_SECOND: &'static str = "Error in plugboard configuration. Duplicate mapping for ";

/// How the refusal of a letter that is wired already ends.
pub const ENCOUNTERED: &'static str = " encountered";

/// The character of a decimal digit.
pub open spec fn digit_char(d: nat) -> char
    recommends
        d < 10,
{
    ('0' as int + d) as char
}

/// A number written in decimal, without leading zeros.
pub open spec fn decimal_digits(n: nat) -> Seq<char>
    decreases n,
{
    if n < 10 {
        seq![digit_char(n)]
    } else {
        decimal_digits(n / 10).push(digit_char(n % 10))
    }
}

/// The reason given when one of two characters is no letter.
pub open spec fn not_alphabetic_message(in1: char, in2: char) -> Seq<char> {
    NOT_ALPHABETIC@ + seq![in1, ' ', in2]
}

/// The reason given when the first letter of a pair is wired already.
pub open spec fn duplicate_first_message(symbol: int) -> Seq<char> {
    DUPLICATE_FIRST@ + decimal_digits(symbol as nat) + ENCOUNTERED@
}

/// The reason given when the second letter of a pair is wired already.
pub open spec fn duplicate_second_message(symbol: int) -> Seq<char> {
    DUPLICATE_SECOND@ + decimal_digits(symbol as nat) + ENCOUNTERED@
}

/// A plugboard wiring swaps symbols in pairs: whatever a symbol is sent to is
/// sent back to it.
pub open spec fn is_plug_wiring(wiring: Map<u8, u8>) -> bool {
    forall|k: u8| #[trigger]
        wiring.contains_key(k) ==> {
            &&& k < 26
            &&& wiring[k] < 26
            &&& wiring.contains_key(wiring[k])
            &&& wiring[wiring[k]] == k
        }
}

/// Where a plugboard sends a symbol: to its partner if it has one, and to
/// itself otherwise.
pub open spec fn plug(wiring: Map<u8, u8>, s: int) -> int {
    if 0 <= s < 256 && wiring.contains_key(s as u8) {
        wiring[s as u8] as int
    } else {
        s
    }
}

/// What plugging a cable between two characters leads to: the new wiring, or
/// the reason why the cable is refused. Both characters must be letters, and
/// neither may be wired already.
pub open spec fn connect(wiring: Map<u8, u8>, in1: char, in2: char) -> Result<
    Map<u8, u8>,
    Seq<char>,
> {
    if !(is_letter(in1) && is_letter(in2)) {
        Err(not_alphabetic_message(in1, in2))
    } else if wiring.contains_key(symbol_of(in1) as u8) {
        Err(duplicate_first_message(symbol_of(in1)))
    } else if wiring.contains_key(symbol_of(in2) as u8) {
        Err(duplicate_second_message(symbol_of(in2)))
    } else {
        Ok(
            wiring.insert(symbol_of(in1) as u8, symbol_of(in2) as u8).insert(
                symbol_of(in2) as u8,
                symbol_of(in1) as u8,
            ),
        )
    }
}

/// What plugging the cables one after the other leads to, starting from an
/// empty plugboard: the wiring, or the reason why the first cable that is
/// refused is refused.
pub open spec fn connect_all(pairs: Seq<(char, char)>) -> Result<Map<u8, u8>, Seq<char>>
    decreases pairs.len(),
{
    if pairs.len() == 0 {
        Ok(Map::empty())
    } else {
        match connect_all(pairs.drop_last()) {
            Ok(wiring) => connect(wiring, pairs.last().0, pairs.last().1),
            Err(reason) => Err(reason),
        }
    }
}

/// Appends one character to a string, with `String::push` of std.
#[verifier::external_body]
fn push_char(text: &mut String, c: char)
    ensures
        final(text)@ == old(text)@.push(c),
{
    text.push(c)
}

/// Writes a number with `ToString::to_string` of std: a `u8` comes out in
/// decimal, without sign or leading zeros.
#[verifier::external_body]
fn decimal_string(number: u8) -> (digits: String)
    ensures
        digits@ == decimal_digits(number as nat),
{
    number.to_string()
}

/// The reason given when one of two characters is no letter.
fn not_alphabetic_reason(in1: char, in2: char) -> (reason: String)
    ensures
        reason@ == not_alphabetic_message(in1, in2),
{
    let mut reason = String::from_str(NOT_ALPHABETIC);
    push_char(&mut reason, in1);
    push_char(&mut reason, ' ');
    push_char(&mut reason, in2);
    assert(reason@ =~= not_alphabetic_message(in1, in2));
    reason
}

/// The reason given when a letter is wired already: how it begins depends on
/// which letter of the pair it is.
fn duplicate_reason(beginning: &str, symbol: u8) -> (reason: String)
    ensures
        reason@ == beginning@ + decimal_digits(symbol as nat) + ENCOUNTERED@,
{
    let mut reason = String::from_str(beginning);
    let digits = decimal_string(symbol);
    reason.append(digits.as_str());
    reason.append(ENCOUNTERED);
    reason
}

/// A plugboard: the cables that are plugged, each kept in both directions.
#[derive(Debug)]
pub struct PlugBoard {
    mapping: HashMap<u8, u8>,
}

impl View for PlugBoard {
    type V = Map<u8, u8>;

    closed spec fn view(&self) -> Map<u8, u8> {
        self.mapping@
    }
}

impl PlugBoard {
    /// A plugboard holds a plugboard wiring.
    pub open spec fn wf(&self) -> bool {
        is_plug_wiring(self@)
    }

    /// A plugboard without cables.
    pub fn new() -> (plugboard: PlugBoard)
        ensures
            plugboard@ == Map::<u8, u8>::empty(),
            plugboard.wf(),
    {
        PlugBoard { mapping: HashMap::new() }
    }

    /// A plugboard with the given cables, plugged in their order. The first
    /// cable that is refused ends the attempt, with its reason.
    pub fn new_with_mapping(mappings: Vec<(char, char)>) -> (result: Result<PlugBoard, String>)
        ensures
            match result {
                Ok(plugboard) => connect_all(mappings@) == Ok::<Map<u8, u8>, Seq<char>>(plugboard@)
                    && plugboard.wf(),
                Err(reason) => connect_all(mappings@) == Err::<Map<u8, u8>, Seq<char>>(reason@),
            },
    {
        let mut pb = Self::new();
        let n: usize = mappings.len();
        let mut i: usize = 0;
        while i < n
            invariant
                i <= n,
                n == mappings@.len(),
                pb.wf(),
                connect_all(mappings@.take(i as int)) == Ok::<Map<u8, u8>, Seq<char>>(pb@),
            decreases n - i,
        {
            let (in1, in2) = mappings[i];
            proof {
                assert(mappings@.take(i + 1).drop_last() =~= mappings@.take(i as int));
                assert(mappings@.take(i + 1).last() == mappings@[i as int]);
            }
            match pb.add_mapping(in1, in2) {
                Ok(()) => {},
                Err(reason) => {
                    proof {
                        lemma_connect_all_fails_for_good(mappings@, i + 1);
                    }
                    return Err(reason);
                },
            }
            i += 1;
        }
        assert(mappings@.take(n as int) =~= mappings@);
        Ok(pb)
    }

    /// Plugs a cable between two letters, of either case. A character that is no
    /// letter, or a letter that is wired already, is refused with the reason,
    /// and the plugboard stays as it was.
    pub fn add_mapping(&mut self, in1: char, in2: char) -> (result: Result<(), String>)
        requires
            old(self).wf(),
        ensures
            final(self).wf(),
            match result {
                Ok(()) => connect(old(self)@, in1, in2) == Ok::<Map<u8, u8>, Seq<char>>(
                    final(self)@,
                ),
                Err(reason) => connect(old(self)@, in1, in2) == Err::<Map<u8, u8>, Seq<char>>(
                    reason@,
                ) && final(self)@ == old(self)@,
            },
    {
        broadcast use group_hash_axioms;

        let (in1_val, in2_val) = match (letter_symbol(in1), letter_symbol(in2)) {
            (Some(in1_val), Some(in2_val)) => (in1_val, in2_val),
            _ => {
                return Err(not_alphabetic_reason(in1, in2));
            },
        };

        if self.mapping.contains_key(&in1_val) {
            return Err(duplicate_reason(DUPLICATE_FIRST, in1_val));
        }
        if self.mapping.contains_key(&in2_val) {
            return Err(duplicate_reason(DUPLICATE_SECOND, in2_val));
        }
        self.mapping.insert(in1_val, in2_val);
        self.mapping.insert(in2_val, in1_val);
        Ok(())
    }

    /// Where the plugboard sends `in_val`: to its partner if a cable is plugged
    /// there, and to itself otherwise.
    pub fn map(&self, in_val: u8) -> (output: u8)
        ensures
            output == plug(self@, in_val as int),
    {
        broadcast use group_hash_axioms;

        match self.mapping.get(&in_val) {
            Some(v) => *v,
            None => in_val,
        }
    }

    /// Whether a cable is plugged at `symbol`.
    pub fn is_wired(&self, symbol: u8) -> (wired: bool)
        ensures
            wired == self@.contains_key(symbol),
    {
        broadcast use group_hash_axioms;

        self.mapping.contains_key(&symbol)
    }
}

impl Clone for PlugBoard {
    /// A plugboard with the same cables.
    fn clone(&self) -> (plugboard: PlugBoard)
        ensures
            plugboard@ == self@,
    {
        PlugBoard { mapping: self.mapping.clone() }
    }
}

impl Default for PlugBoard {
    /// A plugboard without cables.
    fn default() -> (plugboard: PlugBoard)
        ensures
            plugboard@ == Map::<u8, u8>::empty(),
            plugboard.wf(),
    {
        PlugBoard::new()
    }
}

/// Once a cable has been refused, the attempt has failed, whatever cables follow.
pub proof fn lemma_connect_all_fails_for_good(pairs: Seq<(char, char)>, n: int)
    requires
        0 <= n <= pairs.len(),
        connect_all(pairs.take(n)) is Err,
    ensures
        connect_all(pairs) == connect_all(pairs.take(n)),
    decreases pairs.len(),
{
    if n == pairs.len() {
        assert(pairs.take(n) =~= pairs);
    } else {
        assert(pairs.drop_last().take(n) =~= pairs.take(n));
        lemma_connect_all_fails_for_good(pairs.drop_last(), n);
    }
}

/// A plugboard wiring sends symbols to symbols, and sends each symbol back to
/// where it came from.
pub proof fn lemma_plug_is_involution(wiring: Map<u8, u8>, s: int)
    requires
        is_plug_wiring(wiring),
        is_symbol(s),
    ensures
        is_symbol(plug(wiring, s)),
        plug(wiring, plug(wiring, s)) == s,
{
}

} // verus!
