//! The machine: plugboard, rotors and reflector put together, and the path of
//! a signal through them.

use crate::alphabet::{is_letter, is_symbol, letter_of, letter_symbol, symbol_letter, symbol_of};
use crate::plugboard::{connect_all, is_plug_wiring, plug, PlugBoard};
use crate::reflector::{
    is_reflector_id, is_reflector_wiring, reflect, reflector_wiring, Reflector,
    REFLECTOR_A_ALPHABET,
};
use crate::rotor::{is_rotor_id, rotor_with_state, Rotor, RotorView};
use vstd::prelude::*;

verus! {

/// Whether the rotor at `i` steps when a letter is keyed in. The first rotor
/// always steps; another one steps when it stands at its own notch, or when
/// the rotor before it stands at its notch. The notches are looked at before
/// any rotor has moved.
pub open spec fn steps(rotors: Seq<RotorView>, i: int) -> bool
    recommends
        0 <= i < rotors.len(),
{
    i == 0 || rotors[i].at_notch() || rotors[i - 1].at_notch()
}

/// The rotors after a letter has been keyed in.
pub open spec fn step_rotors(rotors: Seq<RotorView>) -> Seq<RotorView> {
    Seq::new(
        rotors.len(),
        |i: int|
            if steps(rotors, i) {
                rotors[i].rotated()
            } else {
                rotors[i]
            },
    )
}

/// The signal after it has gone through the rotors towards the reflector, the
/// first rotor first.
pub open spec fn forward(rotors: Seq<RotorView>, s: int) -> int
    decreases rotors.len(),
{
    if rotors.len() == 0 {
        s
    } else {
        rotors.last().map_in(forward(rotors.drop_last(), s))
    }
}

/// The signal after it has gone through the rotors on its way back from the
/// reflector, the last rotor first.
pub open spec fn backward(rotors: Seq<RotorView>, s: int) -> int
    decreases rotors.len(),
{
    if rotors.len() == 0 {
        s
    } else {
        backward(rotors.drop_last(), rotors.last().map_out(s))
    }
}

/// A machine as the contracts see it.
pub struct MachineView {
    pub reflector: Seq<u8>,
    pub rotors: Seq<RotorView>,
    pub plugboard: Map<u8, u8>,
}

impl MachineView {
    /// Every part is well formed.
    pub open spec fn wf(self) -> bool {
        &&& is_reflector_wiring(self.reflector)
        &&& forall|i: int| 0 <= i < self.rotors.len() ==> (#[trigger] self.rotors[i]).wf()
        &&& is_plug_wiring(self.plugboard)
    }

    /// In every rotor the way back undoes the way in.
    pub open spec fn reciprocal(self) -> bool {
        forall|i: int| 0 <= i < self.rotors.len() ==> (#[trigger] self.rotors[i]).reciprocal()
    }

    /// The machine after the rotors have stepped for one letter.
    pub open spec fn stepped(self) -> MachineView {
        MachineView { rotors: step_rotors(self.rotors), ..self }
    }

    /// The path of a signal through the machine as it stands: plugboard, rotors,
    /// reflector, rotors in reverse, plugboard.
    pub open spec fn signal(self, s: int) -> int {
        plug(
            self.plugboard,
            backward(
                self.rotors,
                reflect(self.reflector, forward(self.rotors, plug(self.plugboard, s))),
            ),
        )
    }

    /// What keying in one character does: a letter makes the rotors step and
    /// comes out as the upper-case letter that its signal ends at; any other
    /// character comes out as it is and leaves the machine as it was.
    pub open spec fn translate(self, c: char) -> (MachineView, char) {
        if is_letter(c) {
            (self.stepped(), letter_of(self.stepped().signal(symbol_of(c))))
        } else {
            (self, c)
        }
    }

    /// What keying in a text does, character by character.
    pub open spec fn translate_text(self, text: Seq<char>) -> (MachineView, Seq<char>)
        decreases text.len(),
    {
        if text.len() == 0 {
            (self, Seq::empty())
        } else {
            let (before, output) = self.translate_text(text.drop_last());
            let (after, c) = before.translate(text.last());
            (after, output.push(c))
        }
    }
}

/// The rotors that a list of identifiers with positions and ring settings asks for.
pub open spec fn rotors_with_state(rotor_ids: Seq<(&str, u8, u8)>) -> Seq<RotorView> {
    Seq::new(
        rotor_ids.len(),
        |i: int| rotor_with_state(rotor_ids[i].0@, rotor_ids[i].1 as int, rotor_ids[i].2 as int),
    )
}

/// The views of a list of rotors.
pub open spec fn rotor_views(rotors: Seq<Rotor>) -> Seq<RotorView> {
    rotors.map_values(|r: Rotor| r@)
}

/// What has been chosen so far for a machine that is being put together.
pub struct BuilderView {
    pub reflector: Option<Seq<u8>>,
    pub rotors: Option<Seq<RotorView>>,
    pub plugboard: Option<Map<u8, u8>>,
}

impl BuilderView {
    /// Every part that has been chosen is well formed.
    pub open spec fn wf(self) -> bool {
        &&& self.reflector matches Some(reflector) ==> is_reflector_wiring(reflector)
        &&& self.rotors matches Some(rotors) ==> forall|i: int|
            0 <= i < rotors.len() ==> (#[trigger] rotors[i]).wf()
        &&& self.plugboard matches Some(plugboard) ==> is_plug_wiring(plugboard)
    }

    /// The rotors chosen so far, none if none were.
    pub open spec fn rotors_so_far(self) -> Seq<RotorView> {
        match self.rotors {
            Some(rotors) => rotors,
            None => Seq::empty(),
        }
    }

    /// The machine that the parts make, if all three have been chosen.
    pub open spec fn built(self) -> Option<MachineView> {
        if self.reflector is Some && self.rotors is Some && self.plugboard is Some {
            Some(
                MachineView {
                    reflector: self.reflector->0,
                    rotors: self.rotors->0,
                    plugboard: self.plugboard->0,
                },
            )
        } else {
            None
        }
    }
}

/// Puts a machine together part by part.
#[derive(Debug)]
pub struct EnigmaMachineBuilder {
    reflector: Option<Reflector>,
    rotors: Option<Vec<Rotor>>,
    plugboard: Option<PlugBoard>,
}

impl View for EnigmaMachineBuilder {
    type V = BuilderView;

    closed spec fn view(&self) -> BuilderView {
        BuilderView {
            reflector: match self.reflector {
                Some(reflector) => Some(reflector@),
                None => None,
            },
            rotors: match self.rotors {
                Some(rotors) => Some(rotor_views(rotors@)),
                None => None,
            },
            plugboard: match self.plugboard {
                Some(plugboard) => Some(plugboard@),
                None => None,
            },
        }
    }
}

impl EnigmaMachineBuilder {
    /// Every part that has been chosen is well formed.
    pub open spec fn wf(&self) -> bool {
        self@.wf()
    }

    /// A builder with nothing chosen.
    pub fn new() -> (builder: EnigmaMachineBuilder)
        ensures
            builder@ == (BuilderView { reflector: None, rotors: None, plugboard: None }),
            builder.wf(),
    {
        EnigmaMachineBuilder { reflector: None, rotors: None, plugboard: None }
    }

    /// Chooses the reflector with the given identifier, in place of any chosen
    /// before.
    pub fn reflector(self, id: &str) -> (builder: EnigmaMachineBuilder)
        requires
            self.wf(),
            is_reflector_id(id@),
        ensures
            builder@ == (BuilderView { reflector: Some(reflector_wiring(id@)), ..self@ }),
            builder.wf(),
    {
        let refl = Reflector::new(id);
        EnigmaMachineBuilder { reflector: Some(refl), rotors: self.rotors, plugboard: self.plugboard }
    }

    /// Chooses a plugboard with the given cables. If one of them is refused, the
    /// builder stays as it was.
    pub fn plugboard(self, mappings: Vec<(char, char)>) -> (builder: EnigmaMachineBuilder)
        requires
            self.wf(),
        ensures
            builder@ == match connect_all(mappings@) {
                Ok(wiring) => BuilderView { plugboard: Some(wiring), ..self@ },
                Err(_) => self@,
            },
            builder.wf(),
    {
        match PlugBoard::new_with_mapping(mappings) {
            Ok(pb) => EnigmaMachineBuilder {
                reflector: self.reflector,
                rotors: self.rotors,
                plugboard: Some(pb),
            },
            Err(_) => self,
        }
    }

    /// Adds rotors behind those chosen so far, in the order given. Each is named
    /// by its identifier and comes with a position and a ring setting, which are
    /// taken modulo 26.
    pub fn rotors(self, rotor_ids: Vec<(&str, u8, u8)>) -> (builder: EnigmaMachineBuilder)
        requires
            self.wf(),
            forall|i: int| 0 <= i < rotor_ids@.len() ==> is_rotor_id((#[trigger] rotor_ids@[i]).0@),
        ensures
            builder@ == (BuilderView {
                rotors: Some(self@.rotors_so_far() + rotors_with_state(rotor_ids@)),
                ..self@
            }),
            builder.wf(),
    {
        let mut rtrs: Vec<Rotor> = Vec::new();
        let n: usize = rotor_ids.len();
        let mut i: usize = 0;
        while i < n
            invariant
                i <= n,
                n == rotor_ids@.len(),
                forall|k: int|
                    0 <= k < rotor_ids@.len() ==> is_rotor_id((#[trigger] rotor_ids@[k]).0@),
                rtrs@.len() == i,
                forall|k: int|
                    0 <= k < i ==> (#[trigger] rtrs@[k])@ == rotors_with_state(rotor_ids@)[k]
                        && rtrs@[k].wf(),
            decreases n - i,
        {
            let (rotor_id, pos, ring_loc) = rotor_ids[i];
            rtrs.push(Rotor::new_with_state(rotor_id, pos, ring_loc));
            i += 1;
        }
        assert(rotor_views(rtrs@) =~= rotors_with_state(rotor_ids@));
        let ghost so_far = self@.rotors_so_far();
        let rotors = match self.rotors {
            Some(chosen) => {
                let mut rotors = chosen;
                rotors.append(&mut rtrs);
                rotors
            },
            None => rtrs,
        };
        assert(rotor_views(rotors@) =~= so_far + rotors_with_state(rotor_ids@));
        EnigmaMachineBuilder { reflector: self.reflector, rotors: Some(rotors), plugboard: self.plugboard }
    }

    /// Adds one rotor behind those chosen so far.
    pub fn rotor(self, rotor_id: &str, pos: u8, ring_loc: u8) -> (builder:
        EnigmaMachineBuilder)
        requires
            self.wf(),
            is_rotor_id(rotor_id@),
        ensures
            builder@ == (BuilderView {
                rotors: Some(
                    self@.rotors_so_far().push(
                        rotor_with_state(rotor_id@, pos as int, ring_loc as int),
                    ),
                ),
                ..self@
            }),
            builder.wf(),
    {
        let rotor = Rotor::new_with_state(rotor_id, pos, ring_loc);
        let ghost so_far = self@.rotors_so_far();
        let ghost added = rotor@;
        let mut rotors = match self.rotors {
            Some(chosen) => chosen,
            None => Vec::new(),
        };
        rotors.push(rotor);
        assert(rotor_views(rotors@) =~= so_far.push(added));
        EnigmaMachineBuilder { reflector: self.reflector, rotors: Some(rotors), plugboard: self.plugboard }
    }

    /// The machine, if a reflector, rotors and a plugboard have all been chosen.
    /// How many rotors there are, and of which kinds, is not looked at.
    pub fn build(self) -> (machine: Option<EnigmaMachine>)
        requires
            self.wf(),
        ensures
            match machine {
                Some(machine) => self@.built() == Some(machine@) && machine.wf(),
                None => self@.built() is None,
            },
    {
        match (self.reflector, self.rotors, self.plugboard) {
            (Some(reflector), Some(rotors), Some(plugboard)) => Some(
                EnigmaMachine { reflector, rotors, plugboard },
            ),
            _ => None,
        }
    }

    /// How many rotors have been chosen, if any were.
    pub fn rotor_count(&self) -> (count: Option<usize>)
        ensures
            count == match self@.rotors {
                Some(rotors) => Some(rotors.len() as usize),
                None => None,
            },
    {
        match &self.rotors {
            Some(rotors) => Some(rotors.len()),
            None => None,
        }
    }
}

impl Default for EnigmaMachineBuilder {
    /// A builder with nothing chosen.
    fn default() -> (builder: EnigmaMachineBuilder)
        ensures
            builder@ == (BuilderView { reflector: None, rotors: None, plugboard: None }),
            builder.wf(),
    {
        EnigmaMachineBuilder::new()
    }
}

/// A machine: a reflector, rotors in the order in which they step, and a
/// plugboard. Only the positions of the rotors change while it runs.
#[derive(Debug)]
pub struct EnigmaMachine {
    reflector: Reflector,
    rotors: Vec<Rotor>,
    plugboard: PlugBoard,
}

impl View for EnigmaMachine {
    type V = MachineView;

    closed spec fn view(&self) -> MachineView {
        MachineView {
            reflector: self.reflector@,
            rotors: rotor_views(self.rotors@),
            plugboard: self.plugboard@,
        }
    }
}

impl EnigmaMachine {
    /// Every part is well formed.
    pub open spec fn wf(&self) -> bool {
        self@.wf()
    }

    /// Reflector `A`, the rotors `I`, `II` and `III` at position 0 with ring
    /// setting 0, and a plugboard without cables.
    pub fn new() -> (machine: EnigmaMachine)
        ensures
            machine@ == (MachineView {
                reflector: REFLECTOR_A_ALPHABET@,
                rotors: seq![
                    rotor_with_state("I"@, 0, 0),
                    rotor_with_state("II"@, 0, 0),
                    rotor_with_state("III"@, 0, 0),
                ],
                plugboard: Map::empty(),
            }),
            machine.wf(),
    {
        let mut rotors: Vec<Rotor> = Vec::new();
        rotors.push(Rotor::new("I"));
        rotors.push(Rotor::new("II"));
        rotors.push(Rotor::new("III"));
        let machine = EnigmaMachine {
            reflector: Reflector::new("A"),
            rotors,
            plugboard: PlugBoard::new(),
        };
        assert(machine@.rotors =~= seq![
            rotor_with_state("I"@, 0, 0),
            rotor_with_state("II"@, 0, 0),
            rotor_with_state("III"@, 0, 0),
        ]);
        machine
    }

    /// A builder with nothing chosen.
    pub fn builder() -> (builder: EnigmaMachineBuilder)
        ensures
            builder@ == (BuilderView { reflector: None, rotors: None, plugboard: None }),
            builder.wf(),
    {
        EnigmaMachineBuilder::new()
    }

    /// The rotors, the first to step first.
    pub fn rotors(&self) -> (rotors: &Vec<Rotor>)
        ensures
            rotor_views(rotors@) == self@.rotors,
    {
        &self.rotors
    }

    /// Keys in one character. A letter, of either case, makes the rotors step
    /// and is enciphered to an upper-case letter; any other character is handed
    /// back and the rotors stay where they are.
    pub fn translate(&mut self, input: char) -> (output: char)
        requires
            old(self).wf(),
        ensures
            final(self).wf(),
            (final(self)@, output) == old(self)@.translate(input),
            !is_letter(input) ==> output == input && final(self)@ == old(self)@,
    {
        let symbol: u8 = match letter_symbol(input) {
            Some(symbol) => symbol,
            None => {
                return input;
            },
        };
        let ghost before = self@;
        let ghost after = before.stepped();
        let ghost entry = plug(before.plugboard, symbol as int);
        let mut trans_input: u8 = self.plugboard.map(symbol);
        let mut rotation_triggered = false;
        let n: usize = self.rotors.len();
        let mut i: usize = 0;
        while i < n
            invariant
                i <= n,
                n == self.rotors@.len(),
                before.wf(),
                before == old(self)@,
                after == before.stepped(),
                before.rotors.len() == n,
                self@.reflector == before.reflector,
                self@.plugboard == before.plugboard,
                forall|k: int| 0 <= k < i ==> (#[trigger] self.rotors@[k])@ == after.rotors[k],
                forall|k: int| i <= k < n ==> (#[trigger] self.rotors@[k])@ == before.rotors[k],
                rotation_triggered == (i > 0 && before.rotors[i - 1].at_notch()),
                trans_input < 26,
                trans_input == forward(after.rotors.take(i as int), entry),
            decreases n - i,
        {
            assert(self.rotors@[i as int]@ == before.rotors[i as int]);
            assert(before.rotors[i as int].wf());
            let at_notch = self.rotors[i].will_step_next_rotor();
            if i == 0 || at_notch || rotation_triggered {
                rotation_triggered = at_notch;
                self.rotors[i].rotate();
            }
            trans_input = self.rotors[i].map_in(trans_input);
            proof {
                assert(after.rotors.take(i + 1).drop_last() =~= after.rotors.take(i as int));
                assert(after.rotors.take(i + 1).last() == after.rotors[i as int]);
            }
            i += 1;
        }
        assert(after.rotors.take(n as int) =~= after.rotors);
        assert(self@.rotors =~= after.rotors);
        assert(self@ == after);

        trans_input = self.reflector.map(trans_input);

        let ghost turned = trans_input as int;
        let mut j: usize = n;
        while j > 0
            invariant
                j <= n,
                n == self.rotors@.len(),
                self@ == after,
                self.wf(),
                trans_input < 26,
                backward(after.rotors, turned) == backward(
                    after.rotors.take(j as int),
                    trans_input as int,
                ),
            decreases j,
        {
            j -= 1;
            proof {
                assert(after.rotors.take(j + 1).drop_last() =~= after.rotors.take(j as int));
                assert(after.rotors.take(j + 1).last() == after.rotors[j as int]);
                assert(self@.rotors[j as int].wf());
            }
            trans_input = self.rotors[j].map_out(trans_input);
        }

        trans_input = self.plugboard.map(trans_input);
        symbol_letter(trans_input)
    }

    /// Keys in a text, character by character, and hands back what comes out.
    pub fn translate_text(&mut self, text: &[char]) -> (output: Vec<char>)
        requires
            old(self).wf(),
        ensures
            final(self).wf(),
            (final(self)@, output@) == old(self)@.translate_text(text@),
            output@.len() == text@.len(),
    {
        let mut output: Vec<char> = Vec::new();
        let n: usize = text.len();
        let mut i: usize = 0;
        while i < n
            invariant
                i <= n,
                n == text@.len(),
                self.wf(),
                output@.len() == i,
                (self@, output@) == old(self)@.translate_text(text@.take(i as int)),
            decreases n - i,
        {
            proof {
                assert(text@.take(i + 1).drop_last() =~= text@.take(i as int));
                assert(text@.take(i + 1).last() == text@[i as int]);
            }
            let c = self.translate(text[i]);
            output.push(c);
            i += 1;
        }
        assert(text@.take(n as int) =~= text@);
        output
    }
}

impl Default for EnigmaMachine {
    /// Reflector `A` and a plugboard without cables, with no rotor between them.
    fn default() -> (machine: EnigmaMachine)
        ensures
            machine@ == (MachineView {
                reflector: REFLECTOR_A_ALPHABET@,
                rotors: Seq::empty(),
                plugboard: Map::empty(),
            }),
            machine.wf(),
    {
        let machine = EnigmaMachine {
            reflector: Reflector::default(),
            rotors: Vec::new(),
            plugboard: PlugBoard::default(),
        };
        assert(machine@.rotors =~= Seq::empty());
        machine
    }
}

} // verus!
