//! The five kinds of rotor that the machine is supplied with.

use vstd::prelude::*;
use crate::alphabet::{is_letter, letter_index};
use crate::rotor::{Rotor, RotorProps, RotorView};
use crate::table::{
    backward_pairs, bidir_map, forward_pairs, is_permutation, lemma_permutation_by_inverse,
    lemma_permutation_tables_are_inverse, wiring_of,
};

verus! {

/// A rotor as the catalogue hands it out: under its name, wired so that `A`
/// to `Z` map to `letters` in turn, with its notch at the letter `notch`, at
/// position `A` and with ring setting `A`.
pub open spec fn fresh_rotor(name: Seq<char>, letters: Seq<char>, notch: char) -> RotorView {
    RotorView {
        name,
        wiring: wiring_of(forward_pairs(letters)),
        inverse: wiring_of(backward_pairs(letters)),
        position: 0,
        ring_setting: 0,
        notch: letter_index(notch),
    }
}

/// The rotor wired as `letters` says, fresh from the catalogue.
fn create_rotor(letters: &'static str, notch: char, name: &'static str) -> (rotor: Rotor)
    requires
        is_permutation(letters@),
        is_letter(notch),
    ensures
        rotor.wf(),
        rotor@ == fresh_rotor(name@, letters@, notch),
{
    proof {
        lemma_permutation_tables_are_inverse(letters@);
    }
    let (permutation, inverse) = bidir_map(letters).unwrap();
    let props = RotorProps::new(permutation, inverse, notch, name);
    Rotor::new(props, 'A', 'A')
}

/// Rotor 1: `A` to `Z` map to `EKMFLGDQVZNTOWYHXUSPAIBRCJ` in turn, and the notch is at `R`.
pub fn create_rotor_1() -> (rotor: Rotor)
    ensures
        rotor.wf(),
        rotor@ == fresh_rotor("Rotor 1"@, "EKMFLGDQVZNTOWYHXUSPAIBRCJ"@, 'R'),
{
    proof {
        // The second sequence is the wiring read backwards.
        reveal_strlit("EKMFLGDQVZNTOWYHXUSPAIBRCJ");
        reveal_strlit("UWYGADFPVZBECKMTHXSLRINQOJ");
        lemma_permutation_by_inverse(
            "EKMFLGDQVZNTOWYHXUSPAIBRCJ"@,
            "UWYGADFPVZBECKMTHXSLRINQOJ"@,
        );
    }
    create_rotor("EKMFLGDQVZNTOWYHXUSPAIBRCJ", 'R', "Rotor 1")
}

/// Rotor 2: `A` to `Z` map to `AJDKSIRUXBLHWTMCQGZNPYFVOE` in turn, and the notch is at `F`.
pub fn create_rotor_2() -> (rotor: Rotor)
    ensures
        rotor.wf(),
        rotor@ == fresh_rotor("Rotor 2"@, "AJDKSIRUXBLHWTMCQGZNPYFVOE"@, 'F'),
{
    proof {
        // The second sequence is the wiring read backwards.
        reveal_strlit("AJDKSIRUXBLHWTMCQGZNPYFVOE");
        reveal_strlit("AJPCZWRLFBDKOTYUQGENHXMIVS");
        lemma_permutation_by_inverse(
            "AJDKSIRUXBLHWTMCQGZNPYFVOE"@,
            "AJPCZWRLFBDKOTYUQGENHXMIVS"@,
        );
    }
    create_rotor("AJDKSIRUXBLHWTMCQGZNPYFVOE", 'F', "Rotor 2")
}

/// Rotor 3: `A` to `Z` map to `BDFHJLCPRTXVZNYEIWGAKMUSQO` in turn, and the notch is at `W`.
pub fn create_rotor_3() -> (rotor: Rotor)
    ensures
        rotor.wf(),
        rotor@ == fresh_rotor("Rotor 3"@, "BDFHJLCPRTXVZNYEIWGAKMUSQO"@, 'W'),
{
    proof {
        // The second sequence is the wiring read backwards.
        reveal_strlit("BDFHJLCPRTXVZNYEIWGAKMUSQO");
        reveal_strlit("TAGBPCSDQEUFVNZHYIXJWLRKOM");
        lemma_permutation_by_inverse(
            "BDFHJLCPRTXVZNYEIWGAKMUSQO"@,
            "TAGBPCSDQEUFVNZHYIXJWLRKOM"@,
        );
    }
    create_rotor("BDFHJLCPRTXVZNYEIWGAKMUSQO", 'W', "Rotor 3")
}

/// Rotor 4: `A` to `Z` map to `ESOVPZJAYQUIRHXLNFTGKDCMWB` in turn, and the notch is at `K`.
pub fn create_rotor_4() -> (rotor: Rotor)
    ensures
        rotor.wf(),
        rotor@ == fresh_rotor("Rotor 4"@, "ESOVPZJAYQUIRHXLNFTGKDCMWB"@, 'K'),
{
    proof {
        // The second sequence is the wiring read backwards.
        reveal_strlit("ESOVPZJAYQUIRHXLNFTGKDCMWB");
        reveal_strlit("HZWVARTNLGUPXQCEJMBSKDYOIF");
        lemma_permutation_by_inverse(
            "ESOVPZJAYQUIRHXLNFTGKDCMWB"@,
            "HZWVARTNLGUPXQCEJMBSKDYOIF"@,
        );
    }
    create_rotor("ESOVPZJAYQUIRHXLNFTGKDCMWB", 'K', "Rotor 4")
}

/// Rotor 5: `A` to `Z` map to `VZBRGITYUPSDNHLXAWMJQOFECK` in turn, and the notch is at `A`.
pub fn create_rotor_5() -> (rotor: Rotor)
    ensures
        rotor.wf(),
        rotor@ == fresh_rotor("Rotor 5"@, "VZBRGITYUPSDNHLXAWMJQOFECK"@, 'A'),
{
    proof {
        // The second sequence is the wiring read backwards.
        reveal_strlit("VZBRGITYUPSDNHLXAWMJQOFECK");
        reveal_strlit("QCYLXWENFTZOSMVJUDKGIARPHB");
        lemma_permutation_by_inverse(
            "VZBRGITYUPSDNHLXAWMJQOFECK"@,
            "QCYLXWENFTZOSMVJUDKGIARPHB"@,
        );
    }
    create_rotor("VZBRGITYUPSDNHLXAWMJQOFECK", 'A', "Rotor 5")
}

} // verus!
