//! A three-rotor cipher machine: a plugboard, a chain of stepping rotors and a
//! reflector, composed into one substitution per symbol.
//!
//! Every symbol first steps the rotors: the right one always, the middle one
//! when the right one arrives at its notch, the left one when the middle one
//! then arrives at its own. The symbol goes through the plugboard, through
//! the rotors from right to left, through the reflector, back through the
//! rotors and through the plugboard again.
//!
//! [`Enigma`] is the machine and [`EnigmaView`] what its contracts speak of.
//! The parts are in [`rotor`], [`reflectors`] and [`plugboard`], the tables
//! they are wired with in [`table`], and what holds of the machine as a
//! whole in [`laws`].

use vstd::prelude::*;
use vstd::std_specs::iter::IteratorSpec;
use crate::alphabet::{index_letter, is_letter, letter_index, to_upper, upper};
use crate::error::Error;
use crate::plugboard::{is_pairing, plugged, Plugboard};
use crate::reflectors::{is_involution, Reflector, ReflectorView};
use crate::rotor::{Rotor, RotorView};
use crate::table::image;

pub mod alphabet;
pub mod error;
pub mod laws;
pub mod plugboard;
pub mod reflectors;
pub mod rotor;
pub mod table;

verus! {

/// The machine as its rules see it: three rotors, a reflector and a
/// plugboard table, the rotors and the reflector each with its name.
pub struct EnigmaView {
    /// The rotor next to the reflector, the last to step.
    pub left: RotorView,
    /// The rotor in the middle.
    pub middle: RotorView,
    /// The rotor that every symbol steps.
    pub right: RotorView,
    /// The reflector.
    pub reflector: ReflectorView,
    /// The plugboard's table.
    pub plugboard: Map<char, char>,
}

impl EnigmaView {
    /// The three rotors are well formed and the plugboard is a pairing.
    pub open spec fn wf(self) -> bool {
        &&& self.left.wf()
        &&& self.middle.wf()
        &&& self.right.wf()
        &&& is_pairing(self.plugboard)
    }

    /// The machine after one step of its rotors. The right rotor steps. If
    /// that brings it to its notch the middle rotor steps too, and if that
    /// in turn brings the middle rotor to its notch, so does the left one.
    pub open spec fn stepped(self) -> EnigmaView {
        let right = self.right.stepped();
        let middle = if right.at_notch() {
            self.middle.stepped()
        } else {
            self.middle
        };
        let left = if right.at_notch() && middle.at_notch() {
            self.left.stepped()
        } else {
            self.left
        };
        EnigmaView { left, middle, right, ..self }
    }

    /// The machine after `n` steps of its rotors.
    pub open spec fn stepped_by(self, n: nat) -> EnigmaView
        decreases n,
    {
        if n == 0 {
            self
        } else {
            self.stepped_by((n - 1) as nat).stepped()
        }
    }

    /// What the machine makes of a symbol with its rotors where they are:
    /// plugboard, the three rotors from right to left, the reflector, the
    /// rotors from left to right, and the plugboard again. A symbol that is
    /// no letter is refused, and so is a letter that the reflector sends
    /// back as something else than a letter.
    #[verifier::opaque]
    pub open spec fn encipher(self, symbol: char) -> Result<char, Error> {
        let entered = image(self.plugboard, upper(symbol));
        if !is_letter(entered) {
            Err(Error::NonAlphabetic)
        } else {
            let inward = self.left.map_forward(
                self.middle.map_forward(self.right.map_forward(letter_index(entered))),
            );
            let reflected = image(self.reflector.pairs, index_letter(inward));
            if !is_letter(reflected) {
                Err(Error::NonAlphabetic)
            } else {
                let outward = self.right.map_inverse(
                    self.middle.map_inverse(self.left.map_inverse(letter_index(reflected))),
                );
                Ok(image(self.plugboard, index_letter(outward)))
            }
        }
    }

    /// What the machine makes of a text, and the machine it is afterwards.
    /// The symbols are taken in order, each after a step of the rotors. The
    /// first symbol that is refused ends the work: the machine stays as that
    /// symbol's step left it, and no symbol after it is looked at.
    pub open spec fn encrypt(self, text: Seq<char>) -> (EnigmaView, Result<Seq<char>, Error>)
        decreases text.len(),
    {
        if text.len() == 0 {
            (self, Ok(Seq::empty()))
        } else {
            let (machine, encrypted) = self.encrypt(text.drop_last());
            match encrypted {
                Err(error) => (machine, Err(error)),
                Ok(symbols) => match machine.stepped().encipher(text.last()) {
                    Ok(symbol) => (machine.stepped(), Ok(symbols.push(symbol))),
                    Err(error) => (machine.stepped(), Err(error)),
                },
            }
        }
    }

    /// Once a symbol has been refused, what follows it changes nothing.
    pub proof fn lemma_encrypt_stops_at_failure(self, text: Seq<char>, n: int)
        requires
            0 <= n <= text.len(),
            self.encrypt(text.take(n)).1 is Err,
        ensures
            self.encrypt(text) == self.encrypt(text.take(n)),
        decreases text.len() - n,
    {
        if n == text.len() {
            assert(text.take(n) =~= text);
        } else {
            assert(text.drop_last().take(n) =~= text.take(n));
            self.lemma_encrypt_stops_at_failure(text.drop_last(), n);
        }
    }

    /// Each rotor is reversible and the reflector is an involution: with
    /// its rotors where they are, the machine then takes back what it gave.
    pub open spec fn is_reciprocal(self) -> bool {
        &&& self.left.is_reversible()
        &&& self.middle.is_reversible()
        &&& self.right.is_reversible()
        &&& is_involution(self.reflector.pairs)
    }

    /// The two machines differ in nothing but the positions of their rotors:
    /// names, wirings, ring settings, notches, reflector and plugboard are
    /// the same.
    pub open spec fn same_settings(self, other: EnigmaView) -> bool {
        &&& self.left == other.left.at_position(self.left.position)
        &&& self.middle == other.middle.at_position(self.middle.position)
        &&& self.right == other.right.at_position(self.right.position)
        &&& self.reflector == other.reflector
        &&& self.plugboard == other.plugboard
    }
}

/// The symbols of an encrypted text, or the reason there is none.
pub open spec fn text_of(encrypted: Result<String, Error>) -> Result<Seq<char>, Error> {
    match encrypted {
        Ok(text) => Ok(text@),
        Err(error) => Err(error),
    }
}

/// `String::push`: the string with the symbol added at its end.
#[verifier::external_body]
fn push_char(text: &mut String, symbol: char)
    ensures
        final(text)@ == old(text)@.push(symbol),
{
    text.push(symbol)
}

/// The cipher machine.
#[derive(Debug)]
pub struct Enigma {
    left_rotor: Rotor,
    middle_rotor: Rotor,
    right_rotor: Rotor,
    reflector: Reflector,
    transpositions: Plugboard,
}

impl View for Enigma {
    type V = EnigmaView;

    closed spec fn view(&self) -> EnigmaView {
        EnigmaView {
            left: self.left_rotor@,
            middle: self.middle_rotor@,
            right: self.right_rotor@,
            reflector: self.reflector@,
            plugboard: self.transpositions@,
        }
    }
}

impl Enigma {
    /// The rotors, the reflector and the plugboard are well formed. Every
    /// machine that this library hands out is well formed.
    pub closed spec fn wf(&self) -> bool {
        &&& self.left_rotor.wf()
        &&& self.middle_rotor.wf()
        &&& self.right_rotor.wf()
        &&& self.reflector.wf()
        &&& self.transpositions.wf()
    }

    /// A well-formed machine has a well-formed view.
    pub proof fn lemma_view_wf(&self)
        requires
            self.wf(),
        ensures
            self@.wf(),
    {
        self.left_rotor.lemma_view_wf();
        self.middle_rotor.lemma_view_wf();
        self.right_rotor.lemma_view_wf();
        self.transpositions.lemma_view_is_pairing();
    }

    /// A machine with the three rotors in their places, the reflector
    /// behind them and no cable on the plugboard.
    pub fn new(
        left_rotor: Rotor,
        middle_rotor: Rotor,
        right_rotor: Rotor,
        reflector: Reflector,
    ) -> (enigma: Self)
        requires
            left_rotor.wf(),
            middle_rotor.wf(),
            right_rotor.wf(),
            reflector.wf(),
        ensures
            enigma.wf(),
            enigma@ == (EnigmaView {
                left: left_rotor@,
                middle: middle_rotor@,
                right: right_rotor@,
                reflector: reflector@,
                plugboard: Map::<char, char>::empty(),
            }),
    {
        Self { left_rotor, middle_rotor, right_rotor, reflector, transpositions: Plugboard::new() }
    }

    /// Steps the rotors, then enciphers the symbol. The step is made
    /// whether or not the symbol is then accepted.
    pub fn encrypt_char(&mut self, letter: char) -> (enciphered: Result<char, Error>)
        requires
            old(self).wf(),
        ensures
            final(self).wf(),
            final(self)@ == old(self)@.stepped(),
            enciphered == old(self)@.stepped().encipher(letter),
            final(self)@.same_settings(old(self)@),
            final(self)@.right.position == (old(self)@.right.position + 1) % 26,
            !is_letter(letter) ==> enciphered == Err::<char, Error>(Error::NonAlphabetic),
    {
        proof {
            reveal(EnigmaView::encipher);
            self.lemma_view_wf();
        }
        let letter = to_upper(letter);
        let enciphered = self.transpositions.apply(letter);

        self.step_rotors();
        proof {
            self.lemma_view_wf();
            let machine = self@;
            let x0 = letter_index(enciphered);
            let x1 = machine.right.map_forward(x0);
            let x2 = machine.middle.map_forward(x1);
            let x3 = machine.left.map_forward(x2);
            machine.right.lemma_maps_to_indices(x0);
            machine.middle.lemma_maps_to_indices(x1);
            machine.left.lemma_maps_to_indices(x2);
            let y3 = letter_index(image(machine.reflector.pairs, index_letter(x3)));
            let y2 = machine.left.map_inverse(y3);
            let y1 = machine.middle.map_inverse(y2);
            machine.left.lemma_maps_to_indices(y3);
            machine.middle.lemma_maps_to_indices(y2);
            machine.right.lemma_maps_to_indices(y1);
        }
        let enciphered = match self.right_rotor.map_letter(enciphered) {
            Ok(symbol) => symbol,
            Err(error) => return Err(error),
        };
        let enciphered = match self.middle_rotor.map_letter(enciphered) {
            Ok(symbol) => symbol,
            Err(error) => return Err(error),
        };
        let enciphered = match self.left_rotor.map_letter(enciphered) {
            Ok(symbol) => symbol,
            Err(error) => return Err(error),
        };

        let enciphered = self.reflector.apply(enciphered);

        let enciphered = match self.left_rotor.inverse_map_letter(enciphered) {
            Ok(symbol) => symbol,
            Err(error) => return Err(error),
        };
        let enciphered = match self.middle_rotor.inverse_map_letter(enciphered) {
            Ok(symbol) => symbol,
            Err(error) => return Err(error),
        };
        let enciphered = match self.right_rotor.inverse_map_letter(enciphered) {
            Ok(symbol) => symbol,
            Err(error) => return Err(error),
        };

        Ok(self.transpositions.apply(enciphered))
    }

    /// Encrypts a text symbol by symbol. The first symbol that is refused
    /// ends the work, with the rotors as its step left them.
    pub fn encrypt(&mut self, text: String) -> (encrypted: Result<String, Error>)
        requires
            old(self).wf(),
        ensures
            final(self).wf(),
            (final(self)@, text_of(encrypted)) == old(self)@.encrypt(text@),
            final(self)@.same_settings(old(self)@),
    {
        let mut encrypted = String::new();
        let mut symbols = text.as_str().chars();
        let ghost mut done: int = 0;
        loop
            invariant
                self.wf(),
                0 <= done <= text@.len(),
                symbols.remaining() == text@.skip(done),
                (self@, Ok::<Seq<char>, Error>(encrypted@)) == old(self)@.encrypt(text@.take(done)),
                self@.same_settings(old(self)@),
            decreases text@.len() - done,
        {
            let letter = match symbols.next() {
                Some(letter) => letter,
                None => {
                    assert(text@.take(done) =~= text@);
                    return Ok(encrypted);
                },
            };
            proof {
                assert(text@.take(done + 1).drop_last() =~= text@.take(done));
                assert(text@.take(done + 1).last() == letter);
            }
            match self.encrypt_char(letter) {
                Ok(symbol) => push_char(&mut encrypted, symbol),
                Err(error) => {
                    proof {
                        old(self)@.lemma_encrypt_stops_at_failure(text@, done + 1);
                    }
                    return Err(error);
                },
            }
            proof {
                done = done + 1;
            }
        }
    }

    /// Puts a cable between two letters of the plugboard, given in either
    /// case: whatever pairs either letter was in are taken off, then the two
    /// are paired. Where one of the symbols is no letter the machine stays
    /// as it was.
    pub fn set_transposition(&mut self, first: char, second: char) -> (done: Result<(), Error>)
        requires
            old(self).wf(),
        ensures
            final(self).wf(),
            done == (if is_letter(first) && is_letter(second) {
                Ok::<(), Error>(())
            } else {
                Err::<(), Error>(Error::NonAlphabetic)
            }),
            final(self)@ == (if is_letter(first) && is_letter(second) {
                EnigmaView {
                    plugboard: plugged(old(self)@.plugboard, upper(first), upper(second)),
                    ..old(self)@
                }
            } else {
                old(self)@
            }),
    {
        self.transpositions.set_pair(first, second)
    }

    /// Puts another rotor in the left place.
    pub fn set_left_rotor(&mut self, rotor: Rotor)
        requires
            old(self).wf(),
            rotor.wf(),
        ensures
            final(self).wf(),
            final(self)@ == (EnigmaView { left: rotor@, ..old(self)@ }),
    {
        self.left_rotor = rotor;
    }

    /// Puts another rotor in the middle place.
    pub fn set_middle_rotor(&mut self, rotor: Rotor)
        requires
            old(self).wf(),
            rotor.wf(),
        ensures
            final(self).wf(),
            final(self)@ == (EnigmaView { middle: rotor@, ..old(self)@ }),
    {
        self.middle_rotor = rotor;
    }

    /// Puts another rotor in the right place.
    pub fn set_right_rotor(&mut self, rotor: Rotor)
        requires
            old(self).wf(),
            rotor.wf(),
        ensures
            final(self).wf(),
            final(self)@ == (EnigmaView { right: rotor@, ..old(self)@ }),
    {
        self.right_rotor = rotor;
    }

    /// Puts another reflector behind the rotors.
    pub fn set_reflector(&mut self, reflector: Reflector)
        requires
            old(self).wf(),
            reflector.wf(),
        ensures
            final(self).wf(),
            final(self)@ == (EnigmaView { reflector: reflector@, ..old(self)@ }),
    {
        self.reflector = reflector;
    }

    /// The letter that names the left rotor's position.
    pub fn get_left_rotor_position(&self) -> (position: char)
        requires
            self.wf(),
        ensures
            position == index_letter(self@.left.position),
    {
        self.left_rotor.get_position()
    }

    /// The letter that names the middle rotor's position.
    pub fn get_middle_rotor_position(&self) -> (position: char)
        requires
            self.wf(),
        ensures
            position == index_letter(self@.middle.position),
    {
        self.middle_rotor.get_position()
    }

    /// The letter that names the right rotor's position.
    pub fn get_right_rotor_position(&self) -> (position: char)
        requires
            self.wf(),
        ensures
            position == index_letter(self@.right.position),
    {
        self.right_rotor.get_position()
    }

    /// Turns the left rotor to the position that the letter names. Any
    /// other symbol is refused and leaves the machine as it was.
    pub fn set_left_rotor_position(&mut self, position: char) -> (done: Result<(), Error>)
        requires
            old(self).wf(),
        ensures
            final(self).wf(),
            done == (if is_letter(position) {
                Ok::<(), Error>(())
            } else {
                Err::<(), Error>(Error::NonAlphabetic)
            }),
            final(self)@ == (if is_letter(position) {
                EnigmaView {
                    left: old(self)@.left.at_position(letter_index(position)),
                    ..old(self)@
                }
            } else {
                old(self)@
            }),
    {
        self.left_rotor.set_position(position)
    }

    /// Turns the middle rotor to the position that the letter names. Any
    /// other symbol is refused and leaves the machine as it was.
    pub fn set_middle_rotor_position(&mut self, position: char) -> (done: Result<(), Error>)
        requires
            old(self).wf(),
        ensures
            final(self).wf(),
            done == (if is_letter(position) {
                Ok::<(), Error>(())
            } else {
                Err::<(), Error>(Error::NonAlphabetic)
            }),
            final(self)@ == (if is_letter(position) {
                EnigmaView {
                    middle: old(self)@.middle.at_position(letter_index(position)),
                    ..old(self)@
                }
            } else {
                old(self)@
            }),
    {
        self.middle_rotor.set_position(position)
    }

    /// Turns the right rotor to the position that the letter names. Any
    /// other symbol is refused and leaves the machine as it was.
    pub fn set_right_rotor_position(&mut self, position: char) -> (done: Result<(), Error>)
        requires
            old(self).wf(),
        ensures
            final(self).wf(),
            done == (if is_letter(position) {
                Ok::<(), Error>(())
            } else {
                Err::<(), Error>(Error::NonAlphabetic)
            }),
            final(self)@ == (if is_letter(position) {
                EnigmaView {
                    right: old(self)@.right.at_position(letter_index(position)),
                    ..old(self)@
                }
            } else {
                old(self)@
            }),
    {
        self.right_rotor.set_position(position)
    }

    /// Turns the left rotor to the position with the given index. An index
    /// that is not below 26 is refused and leaves the machine as it was.
    pub fn set_left_rotor_position_from_int(&mut self, position: u8) -> (done: Result<(), Error>)
        requires
            old(self).wf(),
        ensures
            final(self).wf(),
            done == (if position < 26 {
                Ok::<(), Error>(())
            } else {
                Err::<(), Error>(Error::InvalidPosition)
            }),
            final(self)@ == (if position < 26 {
                EnigmaView { left: old(self)@.left.at_position(position as int), ..old(self)@ }
            } else {
                old(self)@
            }),
    {
        self.left_rotor.set_position_from_int(position)
    }

    /// Turns the middle rotor to the position with the given index. An index
    /// that is not below 26 is refused and leaves the machine as it was.
    pub fn set_middle_rotor_position_from_int(&mut self, position: u8) -> (done: Result<(), Error>)
        requires
            old(self).wf(),
        ensures
            final(self).wf(),
            done == (if position < 26 {
                Ok::<(), Error>(())
            } else {
                Err::<(), Error>(Error::InvalidPosition)
            }),
            final(self)@ == (if position < 26 {
                EnigmaView { middle: old(self)@.middle.at_position(position as int), ..old(self)@ }
            } else {
                old(self)@
            }),
    {
        self.middle_rotor.set_position_from_int(position)
    }

    /// Turns the right rotor to the position with the given index. An index
    /// that is not below 26 is refused and leaves the machine as it was.
    pub fn set_right_rotor_position_from_int(&mut self, position: u8) -> (done: Result<(), Error>)
        requires
            old(self).wf(),
        ensures
            final(self).wf(),
            done == (if position < 26 {
                Ok::<(), Error>(())
            } else {
                Err::<(), Error>(Error::InvalidPosition)
            }),
            final(self)@ == (if position < 26 {
                EnigmaView { right: old(self)@.right.at_position(position as int), ..old(self)@ }
            } else {
                old(self)@
            }),
    {
        self.right_rotor.set_position_from_int(position)
    }

    /// Steps the right rotor, and carries the step on to the left for as
    /// long as the rotor that has just stepped arrives at its notch.
    fn step_rotors(&mut self)
        requires
            old(self).wf(),
        ensures
            final(self).wf(),
            final(self)@ == old(self)@.stepped(),
    {
        if self.right_rotor.increment() {
            if self.middle_rotor.increment() {
                self.left_rotor.increment();
            }
        }
    }
}

} // verus!
