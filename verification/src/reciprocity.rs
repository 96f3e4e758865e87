//! Why deciphering is enciphering: the path of a signal through the machine is
//! its own inverse, and two machines that start alike stay alike.

use crate::alphabet::{
    is_letter, is_symbol, lemma_letter_round_trip, lemma_symbol_round_trip, letter_of, symbol_of,
    to_upper,
};
use crate::machine::{backward, forward, step_rotors, steps, MachineView};
use crate::plugboard::{lemma_plug_is_involution, plug};
use crate::reflector::reflect;
use crate::rotor::{
    lemma_ring_zero_is_reciprocal, lemma_rotated_stays_well_formed, lemma_rotor_maps_symbols,
    lemma_rotor_round_trip, RotorView,
};
use vstd::prelude::*;

verus! {

/// A text with its ASCII lower-case letters turned into upper case.
pub open spec fn to_upper_text(text: Seq<char>) -> Seq<char> {
    text.map_values(|c: char| to_upper(c))
}

/// Rotors that are well formed, each with a way back that undoes its way in.
pub open spec fn are_reciprocal_rotors(rotors: Seq<RotorView>) -> bool {
    forall|i: int|
        0 <= i < rotors.len() ==> (#[trigger] rotors[i]).wf() && rotors[i].reciprocal()
}

/// A machine whose rotors all have a ring setting of 0 is reciprocal.
pub proof fn lemma_ring_zero_machine_is_reciprocal(machine: MachineView)
    requires
        machine.wf(),
        forall|i: int| 0 <= i < machine.rotors.len() ==> (#[trigger] machine.rotors[i]).ring == 0,
    ensures
        machine.reciprocal(),
{
    assert forall|i: int| 0 <= i < machine.rotors.len() implies (
    #[trigger] machine.rotors[i]).reciprocal() by {
        lemma_ring_zero_is_reciprocal(machine.rotors[i]);
    }
}

/// Stepping keeps a machine well formed, and reciprocal if it was.
pub proof fn lemma_stepped_stays_well_formed(machine: MachineView)
    requires
        machine.wf(),
    ensures
        machine.stepped().wf(),
        machine.reciprocal() ==> machine.stepped().reciprocal(),
{
    let after = step_rotors(machine.rotors);
    assert forall|i: int| 0 <= i < after.len() implies (#[trigger] after[i]).wf() && (
    machine.reciprocal() ==> after[i].reciprocal()) by {
        assert(machine.rotors[i].wf());
        lemma_rotated_stays_well_formed(machine.rotors[i]);
    }
}

/// The rotors send symbols to symbols, in both directions.
pub proof fn lemma_rotors_map_symbols(rotors: Seq<RotorView>, s: int)
    requires
        forall|i: int| 0 <= i < rotors.len() ==> (#[trigger] rotors[i]).wf(),
        is_symbol(s),
    ensures
        is_symbol(forward(rotors, s)),
        is_symbol(backward(rotors, s)),
    decreases rotors.len(),
{
    if rotors.len() > 0 {
        let front = rotors.drop_last();
        assert(rotors.last().wf());
        assert forall|i: int| 0 <= i < front.len() implies (#[trigger] front[i]).wf() by {
            assert(front[i] == rotors[i]);
        }
        lemma_rotors_map_symbols(front, s);
        lemma_rotor_maps_symbols(rotors.last(), forward(front, s));
        lemma_rotor_maps_symbols(rotors.last(), s);
        lemma_rotors_map_symbols(front, rotors.last().map_out(s));
    }
}

/// Through reciprocal rotors, a symbol that goes to the reflector and straight
/// back, or back and then forth, is the symbol that it was.
pub proof fn lemma_rotors_round_trip(rotors: Seq<RotorView>, s: int)
    requires
        are_reciprocal_rotors(rotors),
        is_symbol(s),
    ensures
        backward(rotors, forward(rotors, s)) == s,
        forward(rotors, backward(rotors, s)) == s,
    decreases rotors.len(),
{
    if rotors.len() > 0 {
        let front = rotors.drop_last();
        let last = rotors.last();
        assert(last.wf() && last.reciprocal());
        assert forall|i: int| 0 <= i < front.len() implies (#[trigger] front[i]).wf()
            && front[i].reciprocal() by {
            assert(front[i] == rotors[i]);
        }
        lemma_rotors_map_symbols(front, s);
        lemma_rotor_round_trip(last, forward(front, s));
        lemma_rotors_round_trip(front, s);

        lemma_rotor_maps_symbols(last, s);
        lemma_rotors_round_trip(front, last.map_out(s));
        lemma_rotor_round_trip(last, s);
    }
}

/// The path of a signal through a reciprocal machine is an involution without
/// fixed points: the symbol that `s` comes out as goes back to `s`, and is
/// never `s` itself.
pub proof fn lemma_signal_is_involution(machine: MachineView, s: int)
    requires
        machine.wf(),
        machine.reciprocal(),
        is_symbol(s),
    ensures
        is_symbol(machine.signal(s)),
        machine.signal(machine.signal(s)) == s,
        machine.signal(s) != s,
{
    let plugged = plug(machine.plugboard, s);
    lemma_plug_is_involution(machine.plugboard, s);
    let inward = forward(machine.rotors, plugged);
    lemma_rotors_map_symbols(machine.rotors, plugged);
    let turned = reflect(machine.reflector, inward);
    assert(is_symbol(turned));
    assert(reflect(machine.reflector, turned) == inward);
    assert(turned != inward);
    let outward = backward(machine.rotors, turned);
    lemma_rotors_map_symbols(machine.rotors, turned);
    lemma_plug_is_involution(machine.plugboard, outward);
    assert(machine.signal(s) == plug(machine.plugboard, outward));

    assert(are_reciprocal_rotors(machine.rotors));
    lemma_rotors_round_trip(machine.rotors, turned);
    lemma_rotors_round_trip(machine.rotors, plugged);
    assert(forward(machine.rotors, outward) == turned);
    assert(backward(machine.rotors, inward) == plugged);
    if machine.signal(s) == s {
        lemma_plug_is_involution(machine.plugboard, s);
        assert(outward == plugged);
    }
}

/// Keying a character into a reciprocal machine, and what came out into a
/// machine that stood as the first one did, gives the character back in upper
/// case and leaves both machines standing alike. No letter comes out as
/// itself.
pub proof fn lemma_translate_is_involution(machine: MachineView, c: char)
    requires
        machine.wf(),
        machine.reciprocal(),
    ensures
        machine.translate(c).0.wf(),
        machine.translate(c).0.reciprocal(),
        machine.translate(machine.translate(c).1) == (machine.translate(c).0, to_upper(c)),
        is_letter(c) ==> is_letter(machine.translate(c).1) && machine.translate(c).1 != to_upper(c),
{
    if is_letter(c) {
        let after = machine.stepped();
        lemma_stepped_stays_well_formed(machine);
        lemma_letter_round_trip(c);
        let s = symbol_of(c);
        lemma_signal_is_involution(after, s);
        lemma_symbol_round_trip(after.signal(s));
    }
}

/// Keying a text into a machine leaves it well formed, and reciprocal if it
/// was; as many characters come out as went in.
pub proof fn lemma_translate_text_stays_well_formed(machine: MachineView, text: Seq<char>)
    requires
        machine.wf(),
    ensures
        machine.translate_text(text).0.wf(),
        machine.reciprocal() ==> machine.translate_text(text).0.reciprocal(),
        machine.translate_text(text).1.len() == text.len(),
    decreases text.len(),
{
    if text.len() > 0 {
        lemma_translate_text_stays_well_formed(machine, text.drop_last());
        let before = machine.translate_text(text.drop_last()).0;
        if is_letter(text.last()) {
            lemma_stepped_stays_well_formed(before);
        }
    }
}

/// Enciphering is deciphering: keying a text into a reciprocal machine, and
/// what came out into a machine that stood as the first one did at the start,
/// gives the text back, letter for letter in upper case and every other
/// character as it was, and leaves both machines standing alike.
pub proof fn lemma_translate_text_is_involution(machine: MachineView, text: Seq<char>)
    requires
        machine.wf(),
        machine.reciprocal(),
    ensures
        machine.translate_text(machine.translate_text(text).1) == (
            machine.translate_text(text).0,
            to_upper_text(text),
        ),
        to_upper_text(text) == text ==> machine.translate_text(machine.translate_text(text).1).1
            == text,
    decreases text.len(),
{
    let (after, cipher) = machine.translate_text(text);
    if text.len() == 0 {
        assert(to_upper_text(text) =~= Seq::empty());
    } else {
        let front = text.drop_last();
        let (before, front_cipher) = machine.translate_text(front);
        let (_, c) = before.translate(text.last());
        lemma_translate_text_is_involution(machine, front);
        lemma_translate_text_stays_well_formed(machine, front);
        lemma_translate_is_involution(before, text.last());
        assert(cipher == front_cipher.push(c));
        assert(cipher.drop_last() =~= front_cipher);
        assert(cipher.last() == c);
        assert(to_upper_text(text) =~= to_upper_text(front).push(to_upper(text.last())));
    }
}

} // verus!
