//! Rotors: a wiring, a position that advances, a ring setting and one or two
//! notches that make the next rotor step.

use crate::alphabet::{are_inverse_wirings, is_symbol, str_eq};
use vstd::prelude::*;

verus! {

// E, K, M, F, L, G, D, Q, V, Z, N, T, O, W, Y, H, X, U, S, P, A, I, B, R, C, J
pub const ROTOR_1_ALPHABET_IN: [u8; 26] = [
    4, 10, 12, 5, 11, 6, 3, 16, 21, 25, 13, 19, 14, 22, 24, 7, 23, 20, 18, 15, 0, 8, 1, 17, 2, 9,
];

pub const ROTOR_1_ALPHABET_OUT: [u8; 26] = [
    20, 22, 24, 6, 0, 3, 5, 15, 21, 25, 1, 4, 2, 10, 12, 19, 7, 23, 18, 11, 17, 8, 13, 16, 14, 9,
];

// A, J, D, K, S, I, R, U, X, B, L, H, W, T, M, C, Q, G, Z, N, P, Y, F, V, O, E
pub const ROTOR_2_ALPHABET_IN: [u8; 26] = [
    0, 9, 3, 10, 18, 8, 17, 20, 23, 1, 11, 7, 22, 19, 12, 2, 16, 6, 25, 13, 15, 24, 5, 21, 14, 4,
];

pub const ROTOR_2_ALPHABET_OUT: [u8; 26] = [
    0, 9, 15, 2, 25, 22, 17, 11, 5, 1, 3, 10, 14, 19, 24, 20, 16, 6, 4, 13, 7, 23, 12, 8, 21, 18,
];

// B, D, F, H, J, L, C, P, R, T, X, V, Z, N, Y, E, I, W, G, A, K, M, U, S, Q, O
pub const ROTOR_3_ALPHABET_IN: [u8; 26] = [
    1, 3, 5, 7, 9, 11, 2, 15, 17, 19, 23, 21, 25, 13, 24, 4, 8, 22, 6, 0, 10, 12, 20, 18, 16, 14,
];

pub const ROTOR_3_ALPHABET_OUT: [u8; 26] = [
    19, 0, 6, 1, 15, 2, 18, 3, 16, 4, 20, 5, 21, 13, 25, 7, 24, 8, 23, 9, 22, 11, 17, 10, 14, 12,
];

// E, S, O, V, P, Z, J, A, Y, Q, U, I, R, H, X, L, N, F, T, G, K, D, C, M, W, B
pub const ROTOR_4_ALPHABET_IN: [u8; 26] = [
    4, 18, 14, 21, 15, 25, 9, 0, 24, 16, 20, 8, 17, 7, 23, 11, 13, 5, 19, 6, 10, 3, 2, 12, 22, 1,
];

pub const ROTOR_4_ALPHABET_OUT: [u8; 26] = [
    7, 25, 22, 21, 0, 17, 19, 13, 11, 6, 20, 15, 23, 16, 2, 4, 9, 12, 1, 18, 10, 3, 24, 14, 8, 5,
];

// V, Z, B, R, G, I, T, Y, U, P, S, D, N, H, L, X, A, W, M, J, Q, O, F, E, C, K
pub const ROTOR_5_ALPHABET_IN: [u8; 26] = [
    21, 25, 1, 17, 6, 8, 19, 24, 20, 15, 18, 3, 13, 7, 11, 23, 0, 22, 12, 9, 16, 14, 5, 4, 2, 10,
];

pub const ROTOR_5_ALPHABET_OUT: [u8; 26] = [
    16, 2, 24, 11, 23, 22, 4, 13, 5, 19, 25, 14, 18, 12, 21, 9, 20, 3, 10, 6, 8, 0, 17, 15, 7, 1,
];

// J, P, G, V, O, U, M, F, Y, Q, B, E, N, H, Z, R, D, K, A, S, X, L, I, C, T, W
pub const ROTOR_6_ALPHABET_IN: [u8; 26] = [
    9, 15, 6, 21, 14, 20, 12, 5, 24, 16, 1, 4, 13, 7, 25, 17, 3, 10, 0, 18, 23, 11, 8, 2, 19, 22,
];

pub const ROTOR_6_ALPHABET_OUT: [u8; 26] = [
    18, 10, 23, 16, 11, 7, 2, 13, 22, 0, 17, 21, 6, 12, 4, 1, 9, 15, 19, 24, 5, 3, 25, 20, 8, 14,
];

// N, Z, J, H, G, R, C, X, M, Y, S, W, B, O, U, F, A, I, V, L, P, E, K, Q, D, T
pub const ROTOR_7_ALPHABET_IN: [u8; 26] = [
    13, 25, 9, 7, 6, 17, 2, 23, 12, 24, 18, 22, 1, 14, 20, 5, 0, 8, 21, 11, 15, 4, 10, 16, 3, 19,
];

pub const ROTOR_7_ALPHABET_OUT: [u8; 26] = [
    16, 12, 6, 24, 21, 15, 4, 3, 17, 2, 22, 19, 8, 0, 13, 20, 23, 5, 10, 25, 14, 18, 11, 7, 9, 1,
];

// F, K, Q, H, T, L, X, O, C, B, J, S, P, D, Z, R, A, M, E, W, N, I, U, Y, G, V
pub const ROTOR_8_ALPHABET_IN: [u8; 26] = [
    5, 10, 16, 7, 19, 11, 23, 14, 2, 1, 9, 18, 15, 3, 25, 17, 0, 12, 4, 22, 13, 8, 20, 24, 6, 21,
];

pub const ROTOR_8_ALPHABET_OUT: [u8; 26] = [
    16, 9, 8, 13, 18, 0, 24, 3, 21, 10, 1, 5, 17, 20, 7, 12, 2, 15, 11, 4, 22, 25, 19, 6, 23, 14,
];

/// The positions at which a rotor makes its neighbour step.
#[derive(Debug, Clone, Copy)]
pub enum RotorTyreNotch {
    Single(u8),
    Double([u8; 2]),
}

impl RotorTyreNotch {
    /// Whether a rotor with this notch engages its neighbour at `pos`.
    pub open spec fn engages_at(self, pos: int) -> bool {
        match self {
            RotorTyreNotch::Single(notch) => pos == notch,
            RotorTyreNotch::Double(notches) => pos == notches[0] || pos == notches[1],
        }
    }
}

/// What a kind of rotor is made of: its notch and its wiring in both directions.
pub struct RotorTyreView {
    pub notch: RotorTyreNotch,
    pub alphabet_in: Seq<u8>,
    pub alphabet_out: Seq<u8>,
}

impl RotorTyreView {
    /// The two wirings undo each other.
    pub open spec fn wf(self) -> bool {
        are_inverse_wirings(self.alphabet_in, self.alphabet_out)
    }
}

/// The identifiers of the kinds of rotor that exist.
pub open spec fn is_rotor_id(id: Seq<char>) -> bool {
    id == "I"@ || id == "II"@ || id == "III"@ || id == "IV"@ || id == "V"@ || id == "VI"@ || id
        == "VII"@ || id == "VIII"@
}

/// The kind of rotor with the given identifier. Rotors `I` to `V` have one
/// notch, rotors `VI` to `VIII` have two.
pub open spec fn named_tyre(id: Seq<char>) -> RotorTyreView
    recommends
        is_rotor_id(id),
{
    if id == "I"@ {
        // Turnover from Q to R
        RotorTyreView {
            notch: RotorTyreNotch::Single(16),
            alphabet_in: ROTOR_1_ALPHABET_IN@,
            alphabet_out: ROTOR_1_ALPHABET_OUT@,
        }
    } else if id == "II"@ {
        // Turnover from E to F
        RotorTyreView {
            notch: RotorTyreNotch::Single(4),
            alphabet_in: ROTOR_2_ALPHABET_IN@,
            alphabet_out: ROTOR_2_ALPHABET_OUT@,
        }
    } else if id == "III"@ {
        // Turnover from V to W
        RotorTyreView {
            notch: RotorTyreNotch::Single(20),
            alphabet_in: ROTOR_3_ALPHABET_IN@,
            alphabet_out: ROTOR_3_ALPHABET_OUT@,
        }
    } else if id == "IV"@ {
        // Turnover from J to K
        RotorTyreView {
            notch: RotorTyreNotch::Single(8),
            alphabet_in: ROTOR_4_ALPHABET_IN@,
            alphabet_out: ROTOR_4_ALPHABET_OUT@,
        }
    } else if id == "V"@ {
        // Turnover from Z to A
        RotorTyreView {
            notch: RotorTyreNotch::Single(25),
            alphabet_in: ROTOR_5_ALPHABET_IN@,
            alphabet_out: ROTOR_5_ALPHABET_OUT@,
        }
    } else if id == "VI"@ {
        // Turnover from Z to A and from M to N
        RotorTyreView {
            notch: RotorTyreNotch::Double([25, 11]),
            alphabet_in: ROTOR_6_ALPHABET_IN@,
            alphabet_out: ROTOR_6_ALPHABET_OUT@,
        }
    } else if id == "VII"@ {
        RotorTyreView {
            notch: RotorTyreNotch::Double([25, 11]),
            alphabet_in: ROTOR_7_ALPHABET_IN@,
            alphabet_out: ROTOR_7_ALPHABET_OUT@,
        }
    } else {
        RotorTyreView {
            notch: RotorTyreNotch::Double([25, 11]),
            alphabet_in: ROTOR_8_ALPHABET_IN@,
            alphabet_out: ROTOR_8_ALPHABET_OUT@,
        }
    }
}

/// A kind of rotor.
#[derive(Debug, Clone, Copy)]
pub struct RotorTyre {
    notch: RotorTyreNotch,
    alphabet_in: [u8; 26],
    alphabet_out: [u8; 26],
}

impl View for RotorTyre {
    type V = RotorTyreView;

    closed spec fn view(&self) -> RotorTyreView {
        RotorTyreView {
            notch: self.notch,
            alphabet_in: self.alphabet_in@,
            alphabet_out: self.alphabet_out@,
        }
    }
}

impl RotorTyre {
    /// The two wirings undo each other.
    pub open spec fn wf(&self) -> bool {
        self@.wf()
    }

    /// The kind of rotor that `rotor_id` names, if it names one.
    pub fn named(rotor_id: &str) -> (tyre: Option<RotorTyre>)
        ensures
            is_rotor_id(rotor_id@) ==> tyre is Some && tyre->0@ == named_tyre(rotor_id@)
                && tyre->0.wf(),
            !is_rotor_id(rotor_id@) ==> tyre is None,
    {
        proof {
            if is_rotor_id(rotor_id@) {
                lemma_named_tyres_are_inverse(rotor_id@);
            }
        }
        if str_eq(rotor_id, "I") {
            Some(
                RotorTyre {
                    notch: RotorTyreNotch::Single(16),
                    alphabet_in: ROTOR_1_ALPHABET_IN,
                    alphabet_out: ROTOR_1_ALPHABET_OUT,
                },
            )
        } else if str_eq(rotor_id, "II") {
            Some(
                RotorTyre {
                    notch: RotorTyreNotch::Single(4),
                    alphabet_in: ROTOR_2_ALPHABET_IN,
                    alphabet_out: ROTOR_2_ALPHABET_OUT,
                },
            )
        } else if str_eq(rotor_id, "III") {
            Some(
                RotorTyre {
                    notch: RotorTyreNotch::Single(20),
                    alphabet_in: ROTOR_3_ALPHABET_IN,
                    alphabet_out: ROTOR_3_ALPHABET_OUT,
                },
            )
        } else if str_eq(rotor_id, "IV") {
            Some(
                RotorTyre {
                    notch: RotorTyreNotch::Single(8),
                    alphabet_in: ROTOR_4_ALPHABET_IN,
                    alphabet_out: ROTOR_4_ALPHABET_OUT,
                },
            )
        } else if str_eq(rotor_id, "V") {
            Some(
                RotorTyre {
                    notch: RotorTyreNotch::Single(25),
                    alphabet_in: ROTOR_5_ALPHABET_IN,
                    alphabet_out: ROTOR_5_ALPHABET_OUT,
                },
            )
        } else if str_eq(rotor_id, "VI") {
            Some(
                RotorTyre {
                    notch: RotorTyreNotch::Double([25, 11]),
                    alphabet_in: ROTOR_6_ALPHABET_IN,
                    alphabet_out: ROTOR_6_ALPHABET_OUT,
                },
            )
        } else if str_eq(rotor_id, "VII") {
            Some(
                RotorTyre {
                    notch: RotorTyreNotch::Double([25, 11]),
                    alphabet_in: ROTOR_7_ALPHABET_IN,
                    alphabet_out: ROTOR_7_ALPHABET_OUT,
                },
            )
        } else if str_eq(rotor_id, "VIII") {
            Some(
                RotorTyre {
                    notch: RotorTyreNotch::Double([25, 11]),
                    alphabet_in: ROTOR_8_ALPHABET_IN,
                    alphabet_out: ROTOR_8_ALPHABET_OUT,
                },
            )
        } else {
            None
        }
    }

    /// The notch or notches.
    pub fn notch(&self) -> (notch: RotorTyreNotch)
        ensures
            notch == self@.notch,
    {
        self.notch
    }

    /// The wiring on the way to the reflector, indexed by symbol.
    pub fn alphabet_in(&self) -> (table: &[u8; 26])
        ensures
            table@ == self@.alphabet_in,
    {
        &self.alphabet_in
    }

    /// The wiring on the way back from the reflector, indexed by symbol.
    pub fn alphabet_out(&self) -> (table: &[u8; 26])
        ensures
            table@ == self@.alphabet_out,
    {
        &self.alphabet_out
    }
}

/// A rotor as the contracts see it: its kind, its position and its ring setting.
pub struct RotorView {
    pub tyre: RotorTyreView,
    pub pos: int,
    pub ring: int,
}

impl RotorView {
    /// Position and ring setting are symbols, and the two wirings undo each other.
    pub open spec fn wf(self) -> bool {
        &&& self.tyre.wf()
        &&& 0 <= self.pos < 26
        &&& 0 <= self.ring < 26
    }

    /// Whether the rotor, where it stands, makes the next rotor step.
    pub open spec fn at_notch(self) -> bool {
        self.tyre.notch.engages_at(self.pos)
    }

    /// The rotor advanced by one position.
    pub open spec fn rotated(self) -> RotorView {
        RotorView { pos: (self.pos + 1) % 26, ..self }
    }

    /// The entry of a wiring table that a signal `s` meets: the signal shifted by
    /// position and ring setting.
    pub open spec fn contact(self, s: int) -> int {
        (s + self.pos + self.ring) % 26
    }

    /// The signal on its way to the reflector: shifted by position and ring
    /// setting, sent through the inward wiring, and shifted back by the position.
    pub open spec fn map_in(self, s: int) -> int {
        (self.tyre.alphabet_in[self.contact(s)] - self.pos) % 26
    }

    /// The signal on its way back from the reflector, through the outward wiring.
    pub open spec fn map_out(self, s: int) -> int {
        (self.tyre.alphabet_out[self.contact(s)] - self.pos) % 26
    }

    /// Whether the way back undoes the way in, at every position. The ring
    /// setting shifts the signal before the wiring and is not taken back after
    /// it, so this asks that the wiring makes up for the shift; with a ring
    /// setting of 0 every rotor does.
    pub open spec fn reciprocal(self) -> bool {
        &&& forall|x: int|
            0 <= x < 26 ==> #[trigger] makes_up_for_ring(
                self.tyre.alphabet_in,
                self.tyre.alphabet_out,
                self.ring,
                x,
            )
        &&& forall|x: int|
            0 <= x < 26 ==> #[trigger] makes_up_for_ring(
                self.tyre.alphabet_out,
                self.tyre.alphabet_in,
                self.ring,
                x,
            )
    }
}

/// Whether, for a signal that meets the wiring `there` at contact `x`, the
/// wiring `back` makes up for the ring setting: what `there` sends `x` to,
/// shifted by the ring setting, is sent by `back` to `x` less the ring setting.
pub open spec fn makes_up_for_ring(there: Seq<u8>, back: Seq<u8>, ring: int, x: int) -> bool {
    back[(there[x] + ring) % 26] == (x - ring) % 26
}

/// The rotor of the kind that `id` names, with position and ring setting taken
/// modulo 26.
pub open spec fn rotor_with_state(id: Seq<char>, pos: int, ring: int) -> RotorView
    recommends
        is_rotor_id(id),
{
    RotorView { tyre: named_tyre(id), pos: pos % 26, ring: ring % 26 }
}

/// A rotor in the machine.
#[derive(Debug)]
pub struct Rotor {
    tyre: RotorTyre,
    pos: u8,
    ring_loc: u8,
}

impl View for Rotor {
    type V = RotorView;

    closed spec fn view(&self) -> RotorView {
        RotorView { tyre: self.tyre@, pos: self.pos as int, ring: self.ring_loc as int }
    }
}

impl Rotor {
    /// Position and ring setting are symbols, and the kind is well formed.
    pub open spec fn wf(&self) -> bool {
        self@.wf()
    }

    /// The rotor of the given kind at position 0 with ring setting 0.
    pub fn new(rotor_id: &str) -> (rotor: Rotor)
        requires
            is_rotor_id(rotor_id@),
        ensures
            rotor@ == rotor_with_state(rotor_id@, 0, 0),
            rotor.wf(),
    {
        Rotor::new_with_state(rotor_id, 0, 0)
    }

    /// The rotor of the given kind. Position and ring setting are taken modulo 26.
    pub fn new_with_state(rotor_id: &str, pos: u8, ring_loc: u8) -> (rotor: Rotor)
        requires
            is_rotor_id(rotor_id@),
        ensures
            rotor@ == rotor_with_state(rotor_id@, pos as int, ring_loc as int),
            rotor.wf(),
    {
        match RotorTyre::named(rotor_id) {
            Some(tyre) => Rotor { tyre, pos: pos % 26, ring_loc: ring_loc % 26 },
            None => unreached(),
        }
    }

    /// A rotor of a kind that the caller holds, at the given position and ring
    /// setting, which must be symbols.
    pub fn new_custom_rotor(tyre: &RotorTyre, pos: u8, ring_loc: u8) -> (rotor: Rotor)
        requires
            tyre.wf(),
            pos < 26,
            ring_loc < 26,
        ensures
            rotor@ == (RotorView { tyre: tyre@, pos: pos as int, ring: ring_loc as int }),
            rotor.wf(),
    {
        Rotor { tyre: *tyre, pos, ring_loc }
    }

    /// Advances the rotor by one position; after 25 comes 0.
    pub fn rotate(&mut self)
        requires
            old(self).wf(),
        ensures
            final(self)@ == old(self)@.rotated(),
            final(self).wf(),
    {
        self.pos = (self.pos + 1) % 26;
    }

    /// Whether the rotor stands at one of its notches, so that the next rotor
    /// steps with it.
    pub fn will_step_next_rotor(&self) -> (steps: bool)
        ensures
            steps == self@.at_notch(),
    {
        match self.tyre.notch {
            RotorTyreNotch::Single(notch) => self.pos == notch,
            RotorTyreNotch::Double(notches) => self.pos == notches[0] || self.pos == notches[1],
        }
    }

    /// Sends a symbol through the rotor towards the reflector.
    pub fn map_in(&self, input_val: u8) -> (output: u8)
        requires
            self.wf(),
            input_val < 26,
        ensures
            output == self@.map_in(input_val as int),
            output < 26,
    {
        let contact: u8 = (input_val + self.pos + self.ring_loc) % 26;
        let trans: u8 = self.tyre.alphabet_in[contact as usize];
        (trans + 26 - self.pos) % 26
    }

    /// Sends a symbol through the rotor on its way back from the reflector.
    pub fn map_out(&self, input_val: u8) -> (output: u8)
        requires
            self.wf(),
            input_val < 26,
        ensures
            output == self@.map_out(input_val as int),
            output < 26,
    {
        let contact: u8 = (input_val + self.pos + self.ring_loc) % 26;
        let trans: u8 = self.tyre.alphabet_out[contact as usize];
        (trans + 26 - self.pos) % 26
    }

    /// The position, a symbol.
    pub fn position(&self) -> (pos: u8)
        ensures
            pos == self@.pos,
    {
        self.pos
    }

    /// The ring setting, a symbol.
    pub fn ring_setting(&self) -> (ring: u8)
        ensures
            ring == self@.ring,
    {
        self.ring_loc
    }
}

/// For every kind of rotor the outward wiring undoes the inward wiring: for
/// each symbol `s`, `alphabet_out[alphabet_in[s]] == s`, and the other way
/// round.
pub proof fn lemma_named_tyres_are_inverse(id: Seq<char>)
    requires
        is_rotor_id(id),
    ensures
        named_tyre(id).wf(),
        forall|s: int|
            0 <= s < 26 ==> named_tyre(id).alphabet_out[#[trigger] named_tyre(
                id,
            ).alphabet_in[s] as int] == s,
        forall|s: int|
            0 <= s < 26 ==> named_tyre(id).alphabet_in[#[trigger] named_tyre(
                id,
            ).alphabet_out[s] as int] == s,
{
    assert(are_inverse_wirings(ROTOR_1_ALPHABET_IN@, ROTOR_1_ALPHABET_OUT@));
    assert(are_inverse_wirings(ROTOR_2_ALPHABET_IN@, ROTOR_2_ALPHABET_OUT@));
    assert(are_inverse_wirings(ROTOR_3_ALPHABET_IN@, ROTOR_3_ALPHABET_OUT@));
    assert(are_inverse_wirings(ROTOR_4_ALPHABET_IN@, ROTOR_4_ALPHABET_OUT@));
    assert(are_inverse_wirings(ROTOR_5_ALPHABET_IN@, ROTOR_5_ALPHABET_OUT@));
    assert(are_inverse_wirings(ROTOR_6_ALPHABET_IN@, ROTOR_6_ALPHABET_OUT@));
    assert(are_inverse_wirings(ROTOR_7_ALPHABET_IN@, ROTOR_7_ALPHABET_OUT@));
    assert(are_inverse_wirings(ROTOR_8_ALPHABET_IN@, ROTOR_8_ALPHABET_OUT@));
}

/// A rotor sends symbols to symbols, in both directions.
pub proof fn lemma_rotor_maps_symbols(rotor: RotorView, s: int)
    requires
        rotor.wf(),
    ensures
        is_symbol(rotor.contact(s)),
        is_symbol(rotor.map_in(s)),
        is_symbol(rotor.map_out(s)),
{
}

/// Advancing a rotor changes its position only: it stays well formed, and
/// reciprocal if it was.
pub proof fn lemma_rotated_stays_well_formed(rotor: RotorView)
    requires
        rotor.wf(),
    ensures
        rotor.rotated().wf(),
        rotor.reciprocal() ==> rotor.rotated().reciprocal(),
{
}

/// With a ring setting of 0 the way back undoes the way in, whatever the kind
/// of rotor.
pub proof fn lemma_ring_zero_is_reciprocal(rotor: RotorView)
    requires
        rotor.wf(),
        rotor.ring == 0,
    ensures
        rotor.reciprocal(),
{
    assert forall|x: int| 0 <= x < 26 implies #[trigger] makes_up_for_ring(
        rotor.tyre.alphabet_in,
        rotor.tyre.alphabet_out,
        rotor.ring,
        x,
    ) by {
        assert(rotor.tyre.alphabet_in[x] < 26);
    }
    assert forall|x: int| 0 <= x < 26 implies #[trigger] makes_up_for_ring(
        rotor.tyre.alphabet_out,
        rotor.tyre.alphabet_in,
        rotor.ring,
        x,
    ) by {
        assert(rotor.tyre.alphabet_out[x] < 26);
    }
}

/// Shifting a wired symbol back by the position and then forth again by
/// position and ring setting leaves the shift by the ring setting.
proof fn lemma_shift_back_and_forth(wired: int, pos: int, ring: int)
    requires
        is_symbol(wired),
        is_symbol(pos),
        is_symbol(ring),
    ensures
        ((wired - pos) % 26 + pos + ring) % 26 == (wired + ring) % 26,
{
    let back = (wired - pos) % 26;
    assert(back == wired - pos || back == wired - pos + 26);
}

/// Taking ring setting and position off a contact gives the signal that met it.
proof fn lemma_contact_shifted_back(s: int, pos: int, ring: int)
    requires
        is_symbol(s),
        is_symbol(pos),
        is_symbol(ring),
    ensures
        (((s + pos + ring) % 26 - ring) % 26 - pos) % 26 == s,
{
    let x = (s + pos + ring) % 26;
    assert(x == s + pos + ring || x == s + pos + ring - 26 || x == s + pos + ring - 52);
    let y = (x - ring) % 26;
    assert(y == x - ring || y == x - ring + 26);
}

/// In a reciprocal rotor, a symbol that goes in and comes back out, or out
/// and back in, is the symbol that it was.
pub proof fn lemma_rotor_round_trip(rotor: RotorView, s: int)
    requires
        rotor.wf(),
        rotor.reciprocal(),
        is_symbol(s),
    ensures
        rotor.map_out(rotor.map_in(s)) == s,
        rotor.map_in(rotor.map_out(s)) == s,
{
    let x = rotor.contact(s);
    let wired_in = rotor.tyre.alphabet_in[x] as int;
    let wired_out = rotor.tyre.alphabet_out[x] as int;
    assert(is_symbol(x));
    assert(is_symbol(wired_in) && is_symbol(wired_out));
    lemma_shift_back_and_forth(wired_in, rotor.pos, rotor.ring);
    lemma_shift_back_and_forth(wired_out, rotor.pos, rotor.ring);
    lemma_contact_shifted_back(s, rotor.pos, rotor.ring);
    assert(rotor.contact(rotor.map_in(s)) == (wired_in + rotor.ring) % 26);
    assert(rotor.contact(rotor.map_out(s)) == (wired_out + rotor.ring) % 26);
    assert(makes_up_for_ring(rotor.tyre.alphabet_in, rotor.tyre.alphabet_out, rotor.ring, x));
    assert(makes_up_for_ring(rotor.tyre.alphabet_out, rotor.tyre.alphabet_in, rotor.ring, x));
}

/// The signal that meets a given contact, and why a symbol whose shift by the
/// position is known is known itself.
proof fn lemma_signal_of_contact(x: int, wired: int, pos: int, ring: int)
    requires
        is_symbol(x),
        is_symbol(wired),
        is_symbol(pos),
        is_symbol(ring),
    ensures
        is_symbol((x - pos - ring) % 26),
        ((x - pos - ring) % 26 + pos + ring) % 26 == x,
        (wired - pos) % 26 == (x - pos - ring) % 26 ==> wired == (x - ring) % 26,
{
    let s = (x - pos - ring) % 26;
    assert(s == x - pos - ring || s == x - pos - ring + 26 || s == x - pos - ring + 52);
    let back = (wired - pos) % 26;
    assert(back == wired - pos || back == wired - pos + 26);
    let y = (x - ring) % 26;
    assert(y == x - ring || y == x - ring + 26);
}

/// Being reciprocal asks no more than that the way back undoes the way in: a
/// rotor in which a symbol that goes in and comes back out, or out and back
/// in, is always the symbol that it was, is reciprocal.
pub proof fn lemma_round_trip_is_reciprocal(rotor: RotorView)
    requires
        rotor.wf(),
        forall|s: int| is_symbol(s) ==> rotor.map_out(#[trigger] rotor.map_in(s)) == s,
        forall|s: int| is_symbol(s) ==> rotor.map_in(#[trigger] rotor.map_out(s)) == s,
    ensures
        rotor.reciprocal(),
{
    assert forall|x: int| 0 <= x < 26 implies #[trigger] makes_up_for_ring(
        rotor.tyre.alphabet_in,
        rotor.tyre.alphabet_out,
        rotor.ring,
        x,
    ) by {
        let wired = rotor.tyre.alphabet_in[x] as int;
        let met = (wired + rotor.ring) % 26;
        let s = (x - rotor.pos - rotor.ring) % 26;
        assert(is_symbol(wired));
        lemma_signal_of_contact(x, rotor.tyre.alphabet_out[met] as int, rotor.pos, rotor.ring);
        lemma_shift_back_and_forth(wired, rotor.pos, rotor.ring);
        assert(rotor.contact(s) == x);
        assert(rotor.contact(rotor.map_in(s)) == met);
        assert(rotor.map_out(rotor.map_in(s)) == s);
    }
    assert forall|x: int| 0 <= x < 26 implies #[trigger] makes_up_for_ring(
        rotor.tyre.alphabet_out,
        rotor.tyre.alphabet_in,
        rotor.ring,
        x,
    ) by {
        let wired = rotor.tyre.alphabet_out[x] as int;
        let met = (wired + rotor.ring) % 26;
        let s = (x - rotor.pos - rotor.ring) % 26;
        assert(is_symbol(wired));
        lemma_signal_of_contact(x, rotor.tyre.alphabet_in[met] as int, rotor.pos, rotor.ring);
        lemma_shift_back_and_forth(wired, rotor.pos, rotor.ring);
        assert(rotor.contact(s) == x);
        assert(rotor.contact(rotor.map_out(s)) == met);
        assert(rotor.map_in(rotor.map_out(s)) == s);
    }
}

} // verus!
