//! The reflector, and the three kinds that the machine is supplied with.

use vstd::prelude::*;
use crate::alphabet::{index_letter, is_upper, letter_index};
use crate::table::{
    bidir_map, can_be_read, forward_pairs, image, is_permutation, is_readable,
    lemma_permutation_by_inverse, lookup, maps_letters, pairs_of,
};

verus! {

/// The table sends every upper-case letter to an upper-case letter, and that
/// letter back to the first.
pub open spec fn is_involution(pairs: Map<char, char>) -> bool {
    &&& maps_letters(pairs)
    &&& forall|c: char| is_upper(c) ==> pairs[#[trigger] pairs[c]] == c
}

/// The table sends no upper-case letter to itself.
pub open spec fn has_no_fixed_point(pairs: Map<char, char>) -> bool {
    forall|c: char| is_upper(c) ==> #[trigger] pairs[c] != c
}

/// The fixed substitution that turns the way in through the rotors into the
/// way back.
#[derive(Debug)]
pub struct Reflector {
    /// The letter that each letter is sent back as.
    pub map: &'static phf::Map<char, char>,
    /// The name the reflector goes by.
    pub name: &'static str,
}

/// A reflector as the machine's rules see it.
pub struct ReflectorView {
    /// The name the reflector goes by.
    pub name: Seq<char>,
    /// The pairs of its table.
    pub pairs: Map<char, char>,
}

impl View for Reflector {
    type V = ReflectorView;

    open spec fn view(&self) -> ReflectorView {
        ReflectorView { name: self.name@, pairs: pairs_of(*self.map) }
    }
}

impl Reflector {
    /// The reflector's table can be read. The reflectors that this library
    /// hands out are well formed; of one put together field by field,
    /// `can_be_read` tells.
    pub open spec fn wf(&self) -> bool {
        is_readable(*self.map)
    }

    /// A reflector with the given table and name, after making sure that
    /// the table can be read. There is no such reflector where it cannot.
    pub fn checked(map: &'static phf::Map<char, char>, name: &'static str) -> (reflector: Option<
        Self,
    >)
        ensures
            reflector is Some <==> is_readable(*map),
            reflector matches Some(reflector) ==> {
                &&& reflector.wf()
                &&& reflector@ == (ReflectorView { name: name@, pairs: pairs_of(*map) })
            },
    {
        if can_be_read(map) {
            Some(Reflector { map, name })
        } else {
            None
        }
    }

    /// What the reflector sends the symbol back as: the value that its table
    /// pairs with the symbol, or the symbol itself where the table has no
    /// such key.
    pub fn apply(&self, symbol: char) -> (reflected: char)
        requires
            self.wf(),
        ensures
            reflected == image(self@.pairs, symbol),
    {
        match lookup(self.map, symbol) {
            Some(value) => value,
            None => symbol,
        }
    }
}

/// A sequence of upper-case letters that undoes itself, place by place, and
/// keeps no letter in its place, makes the table of a reflector.
pub proof fn lemma_reflector_table(letters: Seq<char>)
    requires
        letters.len() == 26,
        forall|i: int| 0 <= i < 26 ==> is_upper(#[trigger] letters[i]),
        forall|i: int|
            0 <= i < 26 ==> letters[letter_index(#[trigger] letters[i])] == index_letter(i),
        forall|i: int| 0 <= i < 26 ==> #[trigger] letters[i] != index_letter(i),
    ensures
        is_permutation(letters),
        is_involution(forward_pairs(letters)),
        has_no_fixed_point(forward_pairs(letters)),
{
    lemma_permutation_by_inverse(letters, letters);
    let pairs = forward_pairs(letters);
    assert forall|c: char| is_upper(c) implies #[trigger] pairs.contains_key(c) && is_upper(
        pairs[c],
    ) by {
        assert(is_upper(letters[letter_index(c)]));
    }
    assert forall|c: char| is_upper(c) implies pairs[#[trigger] pairs[c]] == c by {
        assert(letters[letter_index(letters[letter_index(c)])] == index_letter(letter_index(c)));
    }
    assert forall|c: char| is_upper(c) implies #[trigger] pairs[c] != c by {
        assert(letters[letter_index(c)] != index_letter(letter_index(c)));
    }
}

/// The reflector that sends `A` to `Z` back as `letters` in turn.
fn create_reflector(letters: &'static str, name: &'static str) -> (reflector: Reflector)
    requires
        is_permutation(letters@),
    ensures
        reflector.wf(),
        reflector@ == (ReflectorView { name: name@, pairs: forward_pairs(letters@) }),
{
    let (map, _) = bidir_map(letters).unwrap();
    Reflector { map, name }
}

/// Reflector A: `A` to `Z` come back as `EJMZALYXVBWFCRQUONTSPIKHGD` in turn.
pub fn create_reflector_a() -> (reflector: Reflector)
    ensures
        reflector.wf(),
        reflector@ == (ReflectorView {
            name: "Reflector A"@,
            pairs: forward_pairs("EJMZALYXVBWFCRQUONTSPIKHGD"@),
        }),
        is_involution(reflector@.pairs),
        has_no_fixed_point(reflector@.pairs),
{
    proof {
        reveal_strlit("EJMZALYXVBWFCRQUONTSPIKHGD");
        lemma_reflector_table("EJMZALYXVBWFCRQUONTSPIKHGD"@);
    }
    create_reflector("EJMZALYXVBWFCRQUONTSPIKHGD", "Reflector A")
}

/// Reflector B: `A` to `Z` come back as `YRUHQSLDPXNGOKMIEBFZCWVJAT` in turn.
pub fn create_reflector_b() -> (reflector: Reflector)
    ensures
        reflector.wf(),
        reflector@ == (ReflectorView {
            name: "Reflector B"@,
            pairs: forward_pairs("YRUHQSLDPXNGOKMIEBFZCWVJAT"@),
        }),
        is_involution(reflector@.pairs),
        has_no_fixed_point(reflector@.pairs),
{
    proof {
        reveal_strlit("YRUHQSLDPXNGOKMIEBFZCWVJAT");
        lemma_reflector_table("YRUHQSLDPXNGOKMIEBFZCWVJAT"@);
    }
    create_reflector("YRUHQSLDPXNGOKMIEBFZCWVJAT", "Reflector B")
}

/// Reflector C: `A` to `Z` come back as `FVPJIAOYEDRZXWGCTKUQSBNMHL` in turn.
pub fn create_reflector_c() -> (reflector: Reflector)
    ensures
        reflector.wf(),
        reflector@ == (ReflectorView {
            name: "Reflector C"@,
            pairs: forward_pairs("FVPJIAOYEDRZXWGCTKUQSBNMHL"@),
        }),
        is_involution(reflector@.pairs),
        has_no_fixed_point(reflector@.pairs),
{
    proof {
        reveal_strlit("FVPJIAOYEDRZXWGCTKUQSBNMHL");
        lemma_reflector_table("FVPJIAOYEDRZXWGCTKUQSBNMHL"@);
    }
    create_reflector("FVPJIAOYEDRZXWGCTKUQSBNMHL", "Reflector C")
}

} // verus!
