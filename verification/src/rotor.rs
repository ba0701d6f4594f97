//! A rotor: a wiring and its inverse, turned by a position and a ring setting.

use vstd::prelude::*;
use crate::alphabet::{
    index_letter, index_of, is_letter, letter_at, letter_index, ALPHABET_SIZE,
};
use crate::error::Error;
use crate::table::{
    are_inverse_tables, is_readable, lookup, maps_letters, pairs_of, readable_inverse_tables,
    wiring_of,
};

pub mod rotors;

verus! {

/// What a wiring gives for the letter with index `l` when it is turned by
/// `offset`: the letter enters `offset` places further on, and what comes out
/// is moved back by as much. All indices are taken modulo 26.
#[verifier::opaque]
pub open spec fn shifted_lookup(wiring: Seq<int>, offset: int, l: int) -> int {
    (wiring[(l + offset) % 26] - offset) % 26
}

/// `wiring` and `inverse` are permutations of the indices 0 to 25 that undo
/// each other.
pub open spec fn inverse_wirings(wiring: Seq<int>, inverse: Seq<int>) -> bool {
    &&& wiring.len() == 26
    &&& inverse.len() == 26
    &&& forall|i: int| 0 <= i < 26 ==> 0 <= #[trigger] wiring[i] < 26 && inverse[wiring[i]] == i
    &&& forall|i: int| 0 <= i < 26 ==> 0 <= #[trigger] inverse[i] < 26 && wiring[inverse[i]] == i
}

/// A rotor as the machine's rules see it.
pub struct RotorView {
    /// The name that the rotor's kind goes by.
    pub name: Seq<char>,
    /// The index that each index maps to on the way in.
    pub wiring: Seq<int>,
    /// The index that each index maps to on the way back.
    pub inverse: Seq<int>,
    /// The current rotation, 0 to 25.
    pub position: int,
    /// The ring setting, 0 to 25.
    pub ring_setting: int,
    /// The position at which the rotor carries a step on to its neighbour.
    pub notch: int,
}

impl RotorView {
    /// The wirings undo each other and the three settings are indices.
    pub open spec fn wf(self) -> bool {
        &&& inverse_wirings(self.wiring, self.inverse)
        &&& 0 <= self.position < 26
        &&& 0 <= self.ring_setting < 26
        &&& 0 <= self.notch < 26
    }

    /// The index that `l` maps to on the way in.
    pub open spec fn map_forward(self, l: int) -> int {
        shifted_lookup(self.wiring, (self.position - self.ring_setting) % 26, l)
    }

    /// The index that `l` maps to on the way back.
    pub open spec fn map_inverse(self, l: int) -> int {
        shifted_lookup(self.inverse, (self.position + self.ring_setting) % 26, l)
    }

    /// The way in, on symbols: a letter of either case gives an upper-case
    /// letter, anything else is refused.
    pub open spec fn map_letter(self, letter: char) -> Result<char, Error> {
        if is_letter(letter) {
            Ok(index_letter(self.map_forward(letter_index(letter))))
        } else {
            Err(Error::NonAlphabetic)
        }
    }

    /// The way back, on symbols.
    pub open spec fn inverse_map_letter(self, letter: char) -> Result<char, Error> {
        if is_letter(letter) {
            Ok(index_letter(self.map_inverse(letter_index(letter))))
        } else {
            Err(Error::NonAlphabetic)
        }
    }

    /// The same rotor at another position.
    pub open spec fn at_position(self, position: int) -> RotorView {
        RotorView { position, ..self }
    }

    /// The rotor one step further on.
    pub open spec fn stepped(self) -> RotorView {
        self.at_position((self.position + 1) % 26)
    }

    /// The rotor stands at its notch.
    pub open spec fn at_notch(self) -> bool {
        self.position == self.notch
    }

    /// The number of steps that bring the rotor to its notch, from 1 to 26.
    pub open spec fn steps_to_notch(self) -> int {
        (self.notch - self.position - 1) % 26 + 1
    }

    /// At every position the way back undoes the way in, and the way in the
    /// way back.
    pub open spec fn is_reversible(self) -> bool {
        forall|position: int, l: int|
            #![trigger self.at_position(position).map_forward(l)]
            #![trigger self.at_position(position).map_inverse(l)]
            0 <= position < 26 && 0 <= l < 26 ==> {
                let turned = self.at_position(position);
                &&& turned.map_inverse(turned.map_forward(l)) == l
                &&& turned.map_forward(turned.map_inverse(l)) == l
            }
    }

    /// Both ways through a rotor give indices.
    pub proof fn lemma_maps_to_indices(self, l: int)
        ensures
            0 <= self.map_forward(l) < 26,
            0 <= self.map_inverse(l) < 26,
    {
        reveal(shifted_lookup);
    }

    /// A well-formed rotor whose ring setting is `A` or `N` is reversible:
    /// these are the ring settings that turn the rotor by as much on the way
    /// back as on the way in.
    pub proof fn lemma_reversible_ring_settings(self)
        requires
            self.wf(),
            self.ring_setting == 0 || self.ring_setting == 13,
        ensures
            self.is_reversible(),
    {
        assert forall|position: int, l: int|
            #![trigger self.at_position(position).map_forward(l)]
            #![trigger self.at_position(position).map_inverse(l)]
            0 <= position < 26 && 0 <= l < 26 implies {
            let turned = self.at_position(position);
            &&& turned.map_inverse(turned.map_forward(l)) == l
            &&& turned.map_forward(turned.map_inverse(l)) == l
        } by {
            let offset = (position - self.ring_setting) % 26;
            assert(offset == (position + self.ring_setting) % 26);
            lemma_shifted_lookup_round_trip(self.wiring, self.inverse, offset, l);
            lemma_shifted_lookup_round_trip(self.inverse, self.wiring, offset, l);
        }
    }
}

/// Turned by the same offset, each of two wirings that undo each other
/// undoes what the other gives.
pub proof fn lemma_shifted_lookup_round_trip(
    wiring: Seq<int>,
    inverse: Seq<int>,
    offset: int,
    l: int,
)
    requires
        inverse_wirings(wiring, inverse),
        0 <= offset < 26,
        0 <= l < 26,
    ensures
        shifted_lookup(inverse, offset, shifted_lookup(wiring, offset, l)) == l,
{
    reveal(shifted_lookup);
    let entry = if l + offset >= 26 {
        l + offset - 26
    } else {
        l + offset
    };
    assert((l + offset) % 26 == entry);
    let there = wiring[entry];
    assert(inverse[there] == entry);
    let out = if there - offset < 0 {
        there - offset + 26
    } else {
        there - offset
    };
    assert((there - offset) % 26 == out);
    assert((out + offset) % 26 == there);
    assert((entry - offset) % 26 == l);
}

/// What is fixed about a kind of rotor: its two wiring tables, its notch and
/// its name.
#[derive(Debug, Clone, Copy)]
pub struct RotorProps {
    permutation: &'static phf::Map<char, char>,
    inverse: &'static phf::Map<char, char>,
    step_position: u8,
    name: &'static str,
}

impl RotorProps {
    /// The tables can be read and undo each other on the alphabet, and the
    /// notch is an index.
    pub closed spec fn wf(self) -> bool {
        &&& readable_inverse_tables(*self.permutation, *self.inverse)
        &&& self.step_position < 26
    }

    /// The table used on the way in, by index.
    pub closed spec fn wiring(self) -> Seq<int> {
        wiring_of(pairs_of(*self.permutation))
    }

    /// The table used on the way back, by index.
    pub closed spec fn inverse_wiring(self) -> Seq<int> {
        wiring_of(pairs_of(*self.inverse))
    }

    /// The index of the notch.
    pub closed spec fn notch(self) -> int {
        self.step_position as int
    }

    /// The name the rotor goes by.
    pub closed spec fn name(self) -> Seq<char> {
        self.name@
    }

    /// Puts together a kind of rotor from its tables, the letter of its
    /// notch and its name.
    pub fn new(
        permutation: &'static phf::Map<char, char>,
        inverse: &'static phf::Map<char, char>,
        step_position: char,
        name: &'static str,
    ) -> (props: Self)
        requires
            readable_inverse_tables(*permutation, *inverse),
            is_letter(step_position),
        ensures
            props.wf(),
            props.wiring() == wiring_of(pairs_of(*permutation)),
            props.inverse_wiring() == wiring_of(pairs_of(*inverse)),
            props.notch() == letter_index(step_position),
            props.name() == name@,
    {
        let step_position: u8 = index_of(step_position).unwrap();
        Self { permutation, inverse, step_position, name }
    }

    /// Puts together a kind of rotor as `new` does, after making sure that
    /// the tables can be read and undo each other on the alphabet, and that
    /// the notch is a letter. There is no such kind of rotor where they do
    /// not.
    pub fn checked(
        permutation: &'static phf::Map<char, char>,
        inverse: &'static phf::Map<char, char>,
        step_position: char,
        name: &'static str,
    ) -> (props: Option<Self>)
        ensures
            props is Some <==> {
                &&& readable_inverse_tables(*permutation, *inverse)
                &&& is_letter(step_position)
            },
            props matches Some(props) ==> {
                &&& props.wf()
                &&& props.wiring() == wiring_of(pairs_of(*permutation))
                &&& props.inverse_wiring() == wiring_of(pairs_of(*inverse))
                &&& props.notch() == letter_index(step_position)
                &&& props.name() == name@
            },
    {
        if index_of(step_position).is_some() && are_inverse_tables(permutation, inverse) {
            Some(Self::new(permutation, inverse, step_position, name))
        } else {
            None
        }
    }

    /// Tables that undo each other are, by index, wirings that undo each other.
    pub proof fn lemma_wirings_are_inverse(self)
        requires
            self.wf(),
        ensures
            inverse_wirings(self.wiring(), self.inverse_wiring()),
            0 <= self.notch() < 26,
    {
        let f = pairs_of(*self.permutation);
        let g = pairs_of(*self.inverse);
        assert forall|i: int| 0 <= i < 26 implies 0 <= #[trigger] self.wiring()[i] < 26
            && self.inverse_wiring()[self.wiring()[i]] == i by {
            let c = index_letter(i);
            assert(f.contains_key(c) && g[f[c]] == c);
            assert(index_letter(letter_index(f[c])) == f[c]);
        }
        assert forall|i: int| 0 <= i < 26 implies 0 <= #[trigger] self.inverse_wiring()[i] < 26
            && self.wiring()[self.inverse_wiring()[i]] == i by {
            let c = index_letter(i);
            assert(g.contains_key(c) && f[g[c]] == c);
            assert(index_letter(letter_index(g[c])) == g[c]);
        }
    }
}

/// A rotor of some kind, at a position, with a ring setting.
#[derive(Debug, Clone, Copy)]
pub struct Rotor {
    rotor_props: RotorProps,
    position: u8,
    ring_setting: u8,
}

impl View for Rotor {
    type V = RotorView;

    closed spec fn view(&self) -> RotorView {
        RotorView {
            name: self.rotor_props.name(),
            wiring: self.rotor_props.wiring(),
            inverse: self.rotor_props.inverse_wiring(),
            position: self.position as int,
            ring_setting: self.ring_setting as int,
            notch: self.rotor_props.notch(),
        }
    }
}

impl Rotor {
    /// The rotor's kind is well formed, and its position and ring setting are
    /// indices. Every rotor that this library hands out is well formed.
    pub closed spec fn wf(&self) -> bool {
        &&& self.rotor_props.wf()
        &&& self.position < 26
        &&& self.ring_setting < 26
    }

    /// A well-formed rotor has a well-formed view.
    pub proof fn lemma_view_wf(&self)
        requires
            self.wf(),
        ensures
            self@.wf(),
    {
        self.rotor_props.lemma_wirings_are_inverse();
    }

    /// A rotor of the given kind, at the position and with the ring setting
    /// that the two letters name.
    pub fn new(props: RotorProps, position: char, ring_setting: char) -> (rotor: Self)
        requires
            props.wf(),
            is_letter(position),
            is_letter(ring_setting),
        ensures
            rotor.wf(),
            rotor@ == (RotorView {
                name: props.name(),
                wiring: props.wiring(),
                inverse: props.inverse_wiring(),
                position: letter_index(position),
                ring_setting: letter_index(ring_setting),
                notch: props.notch(),
            }),
    {
        let position: u8 = index_of(position).unwrap();
        let ring_setting: u8 = index_of(ring_setting).unwrap();
        Self { rotor_props: props, position, ring_setting }
    }

    /// Maps a letter on its way in, towards the reflector.
    pub fn map_letter(&self, letter: char) -> (mapped: Result<char, Error>)
        requires
            self.wf(),
        ensures
            mapped == self@.map_letter(letter),
    {
        self.calculate_mapped_letter_by_ring_setting(
            letter,
            self.rotor_props.permutation,
            self.ring_setting as i8,
        )
    }

    /// Maps a letter on its way back from the reflector.
    pub fn inverse_map_letter(&self, letter: char) -> (mapped: Result<char, Error>)
        requires
            self.wf(),
        ensures
            mapped == self@.inverse_map_letter(letter),
    {
        self.calculate_mapped_letter_by_ring_setting(
            letter,
            self.rotor_props.inverse,
            -(self.ring_setting as i8),
        )
    }

    /// Turns the rotor one step on. The result says whether it has arrived at
    /// its notch, which is when the next rotor of a chain is due a step.
    pub fn increment(&mut self) -> (carry: bool)
        requires
            old(self).wf(),
        ensures
            final(self).wf(),
            final(self)@ == old(self)@.stepped(),
            carry == final(self)@.at_notch(),
    {
        self.position = (self.position + 1) % ALPHABET_SIZE;
        self.position == self.rotor_props.step_position
    }

    /// Turns the rotor one step on, then maps the letter on its way in. The
    /// step is made whether or not the symbol is a letter.
    pub fn increment_and_map(&mut self, letter: char) -> (mapped: Result<char, Error>)
        requires
            old(self).wf(),
        ensures
            final(self).wf(),
            final(self)@ == old(self)@.stepped(),
            mapped == old(self)@.stepped().map_letter(letter),
    {
        self.increment();
        self.map_letter(letter)
    }

    /// Turns the rotor to the position that the letter names. Any other
    /// symbol is refused and leaves the rotor as it was.
    pub fn set_position(&mut self, position: char) -> (done: Result<(), Error>)
        requires
            old(self).wf(),
        ensures
            final(self).wf(),
            done == (if is_letter(position) {
                Ok::<(), Error>(())
            } else {
                Err::<(), Error>(Error::NonAlphabetic)
            }),
            final(self)@ == (if is_letter(position) {
                old(self)@.at_position(letter_index(position))
            } else {
                old(self)@
            }),
    {
        match index_of(position) {
            Some(index) => {
                self.position = index;
                Ok(())
            },
            None => Err(Error::NonAlphabetic),
        }
    }

    /// The letter that names the rotor's position.
    pub fn get_position(&self) -> (position: char)
        requires
            self.wf(),
        ensures
            position == index_letter(self@.position),
    {
        letter_at(self.position)
    }

    /// Turns the rotor to the position with the given index. An index that
    /// is not below 26 is refused and leaves the rotor as it was.
    pub fn set_position_from_int(&mut self, position: u8) -> (done: Result<(), Error>)
        requires
            old(self).wf(),
        ensures
            final(self).wf(),
            done == (if position < 26 {
                Ok::<(), Error>(())
            } else {
                Err::<(), Error>(Error::InvalidPosition)
            }),
            final(self)@ == (if position < 26 {
                old(self)@.at_position(position as int)
            } else {
                old(self)@
            }),
    {
        if position >= ALPHABET_SIZE {
            return Err(Error::InvalidPosition);
        }
        self.position = position;
        Ok(())
    }

    /// Sends a letter through one of the rotor's tables. The rotor's
    /// position, less `ring_setting_number`, says how far the table is
    /// turned: the letter enters that many places further on, and what the
    /// table gives is moved back by as much.
    fn calculate_mapped_letter_by_ring_setting(
        &self,
        letter: char,
        letter_map: &phf::Map<char, char>,
        ring_setting_number: i8,
    ) -> (mapped: Result<char, Error>)
        requires
            self.position < 26,
            -26 < ring_setting_number < 26,
            is_readable(*letter_map),
            maps_letters(pairs_of(*letter_map)),
        ensures
            mapped == (if is_letter(letter) {
                Ok::<char, Error>(
                    index_letter(
                        shifted_lookup(
                            wiring_of(pairs_of(*letter_map)),
                            (self.position - ring_setting_number) % 26,
                            letter_index(letter),
                        ),
                    ),
                )
            } else {
                Err::<char, Error>(Error::NonAlphabetic)
            }),
    {
        proof {
            reveal(shifted_lookup);
        }
        let index: u8 = match index_of(letter) {
            Some(index) => index,
            None => return Err(Error::NonAlphabetic),
        };

        let position_reduced_by_ring_setting: u8 = ((self.position as i8 - ring_setting_number
            + ALPHABET_SIZE as i8) % ALPHABET_SIZE as i8) as u8;
        assert(position_reduced_by_ring_setting == (self.position - ring_setting_number) % 26);

        let input_index: u8 = (index + position_reduced_by_ring_setting) % ALPHABET_SIZE;
        let input_letter = letter_at(input_index);

        let mapped_letter = lookup(letter_map, input_letter).unwrap();
        let mapped_index: u8 = index_of(mapped_letter).unwrap();
        assert(mapped_index == wiring_of(pairs_of(*letter_map))[input_index as int]);

        let mapped_index_increased_by_ring_setting: u8 = (mapped_index + ALPHABET_SIZE
            - position_reduced_by_ring_setting) % ALPHABET_SIZE;
        assert(mapped_index_increased_by_ring_setting == (mapped_index
            - position_reduced_by_ring_setting) % 26);
        Ok(letter_at(mapped_index_increased_by_ring_setting))
    }
}

} // verus!
