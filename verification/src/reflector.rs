//! The reflector: fixed wiring that turns the signal back through the rotors.

use crate::alphabet::{is_wiring, str_eq};
use vstd::prelude::*;

verus! {

// E, J, M, Z, A, L, Y, X, V, B, W, F, C, R, Q, U, O, N, T, S, P, I, K, H, G, D
pub const REFLECTOR_A_ALPHABET: [u8; 26] = [
    4, 9, 12, 25, 0, 11, 24, 23, 21, 1, 22, 5, 2, 17, 16, 20, 14, 13, 19, 18, 15, 8, 10, 7, 6, 3,
];

// Y, R, U, H, Q, S, L, D, P, X, N, G, O, K, M, I, E, B, F, Z, C, W, V, J, A, T
pub const REFLECTOR_B_ALPHABET: [u8; 26] = [
    24, 17, 20, 7, 16, 18, 11, 3, 15, 23, 13, 6, 14, 10, 12, 8, 4, 1, 5, 25, 2, 22, 21, 9, 0, 19,
];

// F, V, P, J, I, A, O, Y, E, D, R, Z, X, W, G, C, T, K, U, Q, S, B, N, M, H, L
pub const REFLECTOR_C_ALPHABET: [u8; 26] = [
    5, 21, 15, 9, 8, 0, 14, 24, 4, 3, 17, 25, 23, 22, 6, 2, 19, 10, 20, 16, 18, 1, 13, 12, 7, 11,
];

/// A reflector wiring pairs the symbols up: it is its own inverse and leaves no
/// symbol where it was.
pub open spec fn is_reflector_wiring(table: Seq<u8>) -> bool {
    &&& is_wiring(table)
    &&& forall|s: int| 0 <= s < 26 ==> table[#[trigger] table[s] as int] == s
    &&& forall|s: int| 0 <= s < 26 ==> #[trigger] table[s] != s
}

/// The identifiers of the reflectors that exist.
pub open spec fn is_reflector_id(id: Seq<char>) -> bool {
    id == "A"@ || id == "B"@ || id == "C"@
}

/// The wiring of the reflector with the given identifier.
pub open spec fn reflector_wiring(id: Seq<char>) -> Seq<u8>
    recommends
        is_reflector_id(id),
{
    if id == "A"@ {
        REFLECTOR_A_ALPHABET@
    } else if id == "B"@ {
        REFLECTOR_B_ALPHABET@
    } else {
        REFLECTOR_C_ALPHABET@
    }
}

/// Where a wiring table sends a symbol.
pub open spec fn reflect(table: Seq<u8>, s: int) -> int
    recommends
        is_wiring(table),
        0 <= s < 26,
{
    table[s] as int
}

/// A reflector: one wiring, the same at every keypress.
#[derive(Debug)]
pub struct Reflector {
    alphabet: [u8; 26],
}

impl View for Reflector {
    type V = Seq<u8>;

    closed spec fn view(&self) -> Seq<u8> {
        self.alphabet@
    }
}

impl Reflector {
    /// A reflector holds a reflector wiring.
    pub open spec fn wf(&self) -> bool {
        is_reflector_wiring(self@)
    }

    /// The reflector with the given identifier: `A`, `B` or `C`.
    pub fn new(reflector_id: &str) -> (reflector: Reflector)
        requires
            is_reflector_id(reflector_id@),
        ensures
            reflector@ == reflector_wiring(reflector_id@),
            reflector.wf(),
    {
        proof {
            lemma_reflector_wirings_are_involutions(reflector_id@);
        }
        if str_eq(reflector_id, "A") {
            Reflector { alphabet: REFLECTOR_A_ALPHABET }
        } else if str_eq(reflector_id, "B") {
            Reflector { alphabet: REFLECTOR_B_ALPHABET }
        } else if str_eq(reflector_id, "C") {
            Reflector { alphabet: REFLECTOR_C_ALPHABET }
        } else {
            unreached()
        }
    }

    /// Whether `reflector_id` names a reflector.
    pub fn is_valid_id(reflector_id: &str) -> (valid: bool)
        ensures
            valid == is_reflector_id(reflector_id@),
    {
        str_eq(reflector_id, "A") || str_eq(reflector_id, "B") || str_eq(reflector_id, "C")
    }

    /// The symbol that the reflector sends `input_val` to.
    pub fn map(&self, input_val: u8) -> (output: u8)
        requires
            self.wf(),
            input_val < 26,
        ensures
            output == reflect(self@, input_val as int),
            output < 26,
    {
        self.alphabet[input_val as usize]
    }

    /// The wiring table, indexed by symbol.
    pub fn alphabet(&self) -> (table: &[u8; 26])
        ensures
            table@ == self@,
    {
        &self.alphabet
    }
}

impl Clone for Reflector {
    /// A reflector with the same wiring.
    fn clone(&self) -> (reflector: Reflector)
        ensures
            reflector@ == self@,
    {
        Reflector { alphabet: self.alphabet }
    }
}

impl Default for Reflector {
    /// Reflector `A`.
    fn default() -> (reflector: Reflector)
        ensures
            reflector@ == REFLECTOR_A_ALPHABET@,
            reflector.wf(),
    {
        Reflector { alphabet: REFLECTOR_A_ALPHABET }
    }
}

/// Each reflector's wiring is an involution without fixed points: the symbol
/// that `s` is sent to is sent back to `s`, and is never `s` itself.
pub proof fn lemma_reflector_wirings_are_involutions(id: Seq<char>)
    requires
        is_reflector_id(id),
    ensures
        is_reflector_wiring(reflector_wiring(id)),
        forall|s: int|
            0 <= s < 26 ==> {
                &&& reflector_wiring(id)[#[trigger] reflector_wiring(id)[s] as int] == s
                &&& reflector_wiring(id)[s] != s
            },
{
    assert(is_reflector_wiring(REFLECTOR_A_ALPHABET@));
    assert(is_reflector_wiring(REFLECTOR_B_ALPHABET@));
    assert(is_reflector_wiring(REFLECTOR_C_ALPHABET@));
}

} // verus!
