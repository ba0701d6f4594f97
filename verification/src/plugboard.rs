//! The plugboard: letters swapped in pairs, before the rotors and after them.

use std::collections::HashMap;
use vstd::prelude::*;
use vstd::set_lib::{lemma_int_range, lemma_len_subset, lemma_map_size_bound, set_int_range};
use crate::alphabet::{index_letter, index_of, is_letter, is_upper, letter_index, to_upper, upper};
use crate::error::Error;
use crate::table::image;

verus! {

broadcast use vstd::std_specs::hash::group_hash_axioms;

/// Every key is an upper-case letter, and its value is a key that is paired
/// with it in turn: the letters on the board are swapped two by two.
pub open spec fn is_pairing(pairs: Map<char, char>) -> bool {
    forall|c: char| #[trigger]
        pairs.contains_key(c) ==> is_upper(c) && pairs.contains_key(pairs[c]) && pairs[pairs[c]]
            == c
}

/// The board without the pair that `letter` is in, if it is in one.
pub open spec fn unplugged(pairs: Map<char, char>, letter: char) -> Map<char, char> {
    if pairs.contains_key(letter) {
        pairs.remove(letter).remove(pairs[letter])
    } else {
        pairs
    }
}

/// The board after a cable is put between `first` and `second`: whatever
/// pairs either letter was in are taken off, then the two are paired.
pub open spec fn plugged(pairs: Map<char, char>, first: char, second: char) -> Map<char, char> {
    unplugged(unplugged(pairs, first), second).insert(first, second).insert(second, first)
}

/// A board of swapped letters.
#[derive(Debug)]
pub struct Plugboard {
    pairs: HashMap<u32, char>,
}

impl View for Plugboard {
    type V = Map<char, char>;

    closed spec fn view(&self) -> Map<char, char> {
        Map::new(
            |c: char| is_upper(c) && self.pairs@.contains_key(c as u32),
            |c: char| self.pairs@[c as u32],
        )
    }
}

impl Plugboard {
    /// The board is a pairing. Every board that this library hands out is
    /// well formed.
    pub closed spec fn wf(&self) -> bool {
        &&& is_pairing(self@)
        &&& forall|k: u32| #[trigger] self.pairs@.contains_key(k) ==> 'A' as u32 <= k <= 'Z' as u32
    }

    /// A well-formed board is a pairing.
    pub proof fn lemma_view_is_pairing(&self)
        requires
            self.wf(),
        ensures
            is_pairing(self@),
    {
    }

    /// A board with no cable on it.
    pub fn new() -> (board: Self)
        ensures
            board.wf(),
            board@ == Map::<char, char>::empty(),
    {
        let board = Plugboard { pairs: HashMap::new() };
        assert(board@ =~= Map::<char, char>::empty());
        board
    }

    /// The letter that the symbol is swapped with, or the symbol itself
    /// where it is in no pair.
    pub fn apply(&self, symbol: char) -> (swapped: char)
        requires
            self.wf(),
        ensures
            swapped == image(self@, symbol),
    {
        match self.pairs.get(&(symbol as u32)) {
            Some(partner) => *partner,
            None => symbol,
        }
    }

    /// Puts a cable between two letters, given in either case. Where one of
    /// the symbols is no letter the board stays as it was.
    pub fn set_pair(&mut self, first: char, second: char) -> (done: Result<(), Error>)
        requires
            old(self).wf(),
        ensures
            final(self).wf(),
            done == (if is_letter(first) && is_letter(second) {
                Ok::<(), Error>(())
            } else {
                Err::<(), Error>(Error::NonAlphabetic)
            }),
            final(self)@ == (if is_letter(first) && is_letter(second) {
                plugged(old(self)@, upper(first), upper(second))
            } else {
                old(self)@
            }),
    {
        if index_of(first).is_none() || index_of(second).is_none() {
            return Err(Error::NonAlphabetic);
        }
        let first = to_upper(first);
        let second = to_upper(second);
        let ghost before = self@;
        proof {
            lemma_plugged_is_pairing(before, first, second);
        }

        if let Some(value) = self.pairs.remove(&(first as u32)) {
            self.pairs.remove(&(value as u32));
        }
        assert(self@ =~= unplugged(before, first));
        let ghost between = self@;
        if let Some(value) = self.pairs.remove(&(second as u32)) {
            self.pairs.remove(&(value as u32));
        }
        assert(self@ =~= unplugged(between, second));

        let ghost cleared = self@;
        self.pairs.insert(first as u32, second);
        assert(self@ =~= cleared.insert(first, second));
        self.pairs.insert(second as u32, first);
        assert(self@ =~= cleared.insert(first, second).insert(second, first));
        Ok(())
    }
}

/// Taking a pair off a pairing leaves a pairing.
pub proof fn lemma_unplugged_is_pairing(pairs: Map<char, char>, letter: char)
    requires
        is_pairing(pairs),
    ensures
        is_pairing(unplugged(pairs, letter)),
        !unplugged(pairs, letter).contains_key(letter),
{
}

/// Putting a cable between two upper-case letters of a pairing leaves a
/// pairing.
pub proof fn lemma_plugged_is_pairing(pairs: Map<char, char>, first: char, second: char)
    requires
        is_pairing(pairs),
        is_upper(first),
        is_upper(second),
    ensures
        is_pairing(plugged(pairs, first, second)),
{
    lemma_unplugged_is_pairing(pairs, first);
    lemma_unplugged_is_pairing(unplugged(pairs, first), second);
}

/// A cable swaps its two letters, and a second cable from one of them to a
/// third letter leaves the first partner alone again.
pub proof fn lemma_cable_swaps_and_frees(pairs: Map<char, char>, a: char, b: char, c: char)
    requires
        is_pairing(pairs),
        is_upper(a),
        is_upper(b),
        is_upper(c),
        a != b,
        c != b,
    ensures
        image(plugged(pairs, a, b), a) == b,
        image(plugged(pairs, a, b), b) == a,
        image(plugged(plugged(pairs, a, b), a, c), b) == b,
{
}

/// The same cable a second time, either way round, changes nothing.
pub proof fn lemma_cable_twice(pairs: Map<char, char>, a: char, b: char)
    requires
        is_pairing(pairs),
        is_upper(a),
        is_upper(b),
    ensures
        plugged(plugged(pairs, a, b), a, b) == plugged(pairs, a, b),
        plugged(plugged(pairs, a, b), b, a) == plugged(pairs, a, b),
{
    let once = plugged(pairs, a, b);
    assert(plugged(once, a, b) =~= once);
    assert(plugged(once, b, a) =~= once);
}

/// A pairing swaps: what it makes of what it made of a symbol is the symbol.
pub proof fn lemma_pairing_swaps_back(pairs: Map<char, char>, symbol: char)
    requires
        is_pairing(pairs),
    ensures
        image(pairs, image(pairs, symbol)) == symbol,
        is_upper(symbol) ==> is_upper(image(pairs, symbol)),
        !is_upper(symbol) ==> image(pairs, symbol) == symbol,
{
}

/// A pairing has at most 26 keys, so there are never more than 13 cables
/// between different letters on a board.
pub proof fn lemma_pairing_is_small(pairs: Map<char, char>)
    requires
        is_pairing(pairs),
    ensures
        pairs.dom().finite(),
        pairs.dom().len() <= 26,
{
    let places = set_int_range(0, 26);
    let letter_at = |i: int| index_letter(i);
    let letters = places.map(letter_at);
    lemma_int_range(0, 26);
    lemma_map_size_bound(places, letters, letter_at);
    assert(pairs.dom().subset_of(letters)) by {
        assert forall|c: char| pairs.dom().contains(c) implies letters.contains(c) by {
            assert(pairs.contains_key(c));
            let i = letter_index(c);
            assert(places.contains(i) && c == letter_at(i));
        }
    }
    lemma_len_subset(pairs.dom(), letters);
}

} // verus!
