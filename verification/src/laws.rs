//! What holds of the machine whatever it is set to and whatever it is given.

use vstd::prelude::*;
use crate::alphabet::{index_letter, is_letter, is_upper, letter_index, upper, upper_text};
use crate::error::Error;
use crate::plugboard::is_pairing;
use crate::rotor::RotorView;
use crate::table::{image, maps_letters};
use crate::EnigmaView;

verus! {

/// A reversible rotor is reversible at whatever position it stands.
pub proof fn lemma_reversible_at_any_position(rotor: RotorView, position: int)
    requires
        rotor.is_reversible(),
    ensures
        rotor.at_position(position).is_reversible(),
{
    let turned = rotor.at_position(position);
    assert forall|p: int, l: int|
        #![trigger turned.at_position(p).map_forward(l)]
        #![trigger turned.at_position(p).map_inverse(l)]
        0 <= p < 26 && 0 <= l < 26 implies {
        &&& turned.at_position(p).map_inverse(turned.at_position(p).map_forward(l)) == l
        &&& turned.at_position(p).map_forward(turned.at_position(p).map_inverse(l)) == l
    } by {
        assert(turned.at_position(p) == rotor.at_position(p));
    }
}

/// A step turns the right rotor by exactly one place and changes nothing
/// but positions. It keeps a well-formed machine well formed, and a
/// reciprocal one reciprocal.
pub proof fn lemma_step_keeps_settings(machine: EnigmaView)
    ensures
        machine.stepped().same_settings(machine),
        machine.stepped().right.position == (machine.right.position + 1) % 26,
        machine.wf() ==> machine.stepped().wf(),
        machine.is_reciprocal() ==> machine.stepped().is_reciprocal(),
{
    let after = machine.stepped();
    if machine.is_reciprocal() {
        lemma_reversible_at_any_position(machine.left, after.left.position);
        lemma_reversible_at_any_position(machine.middle, after.middle.position);
        lemma_reversible_at_any_position(machine.right, after.right.position);
        assert(after.left == machine.left.at_position(after.left.position));
        assert(after.middle == machine.middle.at_position(after.middle.position));
        assert(after.right == machine.right.at_position(after.right.position));
    }
}

/// Encrypting a text changes nothing but the positions of the rotors:
/// wirings, ring settings, notches, reflector and plugboard stay as they
/// were, whether the text is accepted or not.
pub proof fn lemma_encrypt_keeps_settings(machine: EnigmaView, text: Seq<char>)
    ensures
        machine.encrypt(text).0.same_settings(machine),
        machine.wf() ==> machine.encrypt(text).0.wf(),
        machine.is_reciprocal() ==> machine.encrypt(text).0.is_reciprocal(),
    decreases text.len(),
{
    if text.len() > 0 {
        lemma_encrypt_keeps_settings(machine, text.drop_last());
        lemma_step_keeps_settings(machine.encrypt(text.drop_last()).0);
    }
}

/// A symbol that is no letter is refused, whatever the machine is set to.
pub proof fn lemma_encipher_refuses_other_symbols(machine: EnigmaView, symbol: char)
    requires
        is_pairing(machine.plugboard),
        !is_letter(symbol),
    ensures
        machine.encipher(symbol) == Err::<char, Error>(Error::NonAlphabetic),
{
    reveal(EnigmaView::encipher);
}

/// A letter is accepted, and comes out as an upper-case letter, wherever
/// the reflector sends letters back as letters.
pub proof fn lemma_encipher_accepts_letters(machine: EnigmaView, symbol: char)
    requires
        is_pairing(machine.plugboard),
        maps_letters(machine.reflector.pairs),
        is_letter(symbol),
    ensures
        machine.encipher(symbol) matches Ok(enciphered) && is_upper(enciphered),
{
    reveal(EnigmaView::encipher);
    let entered = image(machine.plugboard, upper(symbol));
    let x1 = machine.right.map_forward(letter_index(entered));
    let x2 = machine.middle.map_forward(x1);
    let x3 = machine.left.map_forward(x2);
    machine.left.lemma_maps_to_indices(x2);
    let reflected = image(machine.reflector.pairs, index_letter(x3));
    assert(is_upper(reflected));
    let y2 = machine.left.map_inverse(letter_index(reflected));
    let y1 = machine.middle.map_inverse(y2);
    machine.right.lemma_maps_to_indices(y1);
}

/// With its rotors where they are, a reciprocal machine turns a letter into
/// an upper-case letter, and that letter back into the first, in upper case.
pub proof fn lemma_encipher_is_involution(machine: EnigmaView, symbol: char)
    requires
        machine.wf(),
        machine.is_reciprocal(),
        is_letter(symbol),
    ensures
        machine.encipher(symbol) matches Ok(enciphered) && is_upper(enciphered) && machine.encipher(
            enciphered,
        ) == Ok::<char, Error>(upper(symbol)),
{
    reveal(EnigmaView::encipher);
    let plug = machine.plugboard;
    let entered = image(plug, upper(symbol));
    assert(is_upper(entered));
    let x0 = letter_index(entered);
    let x1 = machine.right.map_forward(x0);
    let x2 = machine.middle.map_forward(x1);
    let x3 = machine.left.map_forward(x2);
    machine.right.lemma_maps_to_indices(x0);
    machine.middle.lemma_maps_to_indices(x1);
    machine.left.lemma_maps_to_indices(x2);
    let reflected = image(machine.reflector.pairs, index_letter(x3));
    assert(is_upper(reflected));
    let y3 = letter_index(reflected);
    let y2 = machine.left.map_inverse(y3);
    let y1 = machine.middle.map_inverse(y2);
    let y0 = machine.right.map_inverse(y1);
    machine.left.lemma_maps_to_indices(y3);
    machine.middle.lemma_maps_to_indices(y2);
    machine.right.lemma_maps_to_indices(y1);
    let enciphered = image(plug, index_letter(y0));
    assert(machine.encipher(symbol) == Ok::<char, Error>(enciphered));
    assert(is_upper(enciphered));

    assert(image(plug, upper(enciphered)) == index_letter(y0));
    assert(machine.right == machine.right.at_position(machine.right.position));
    assert(machine.middle == machine.middle.at_position(machine.middle.position));
    assert(machine.left == machine.left.at_position(machine.left.position));
    assert(machine.right.map_forward(y0) == y1);
    assert(machine.middle.map_forward(y1) == y2);
    assert(machine.left.map_forward(y2) == y3);
    assert(index_letter(y3) == reflected);
    assert(image(machine.reflector.pairs, reflected) == index_letter(x3));
    assert(machine.left.map_inverse(x3) == x2);
    assert(machine.middle.map_inverse(x2) == x1);
    assert(machine.right.map_inverse(x1) == x0);
    assert(image(plug, index_letter(x0)) == upper(symbol));
}

/// Encrypting is its own inverse: a reciprocal machine turns a text of
/// letters into a text of as many upper-case letters, and, started again
/// from the same positions, turns that text into the first, in upper case.
pub proof fn lemma_encrypt_is_self_inverse(machine: EnigmaView, text: Seq<char>)
    requires
        machine.wf(),
        machine.is_reciprocal(),
        forall|i: int| 0 <= i < text.len() ==> is_letter(#[trigger] text[i]),
    ensures
        machine.encrypt(text).1 matches Ok(cipher) && {
            &&& cipher.len() == text.len()
            &&& forall|i: int| 0 <= i < cipher.len() ==> is_upper(#[trigger] cipher[i])
            &&& machine.encrypt(cipher) == (
                machine.encrypt(text).0,
                Ok::<Seq<char>, Error>(upper_text(text)),
            )
        },
    decreases text.len(),
{
    if text.len() == 0 {
        assert(upper_text(text) =~= Seq::<char>::empty());
    } else {
        let head = text.drop_last();
        lemma_encrypt_is_self_inverse(machine, head);
        lemma_encrypt_keeps_settings(machine, head);
        let after = machine.encrypt(head).0;
        let cipher_head = machine.encrypt(head).1->Ok_0;
        lemma_step_keeps_settings(after);
        lemma_encipher_is_involution(after.stepped(), text.last());
        let symbol = after.stepped().encipher(text.last())->Ok_0;
        let cipher = cipher_head.push(symbol);
        assert(machine.encrypt(text) == (after.stepped(), Ok::<Seq<char>, Error>(cipher)));
        assert(cipher.drop_last() =~= cipher_head);
        assert(cipher.last() == symbol);
        assert(upper_text(head).push(upper(text.last())) =~= upper_text(text));
    }
}

/// Every symbol of a text that is accepted costs one step.
pub proof fn lemma_encrypt_steps_once_a_symbol(machine: EnigmaView, text: Seq<char>)
    requires
        machine.encrypt(text).1 is Ok,
    ensures
        machine.encrypt(text).0 == machine.stepped_by(text.len()),
    decreases text.len(),
{
    if text.len() > 0 {
        lemma_encrypt_steps_once_a_symbol(machine, text.drop_last());
    }
}

/// Steps change nothing but the positions of the rotors.
pub proof fn lemma_steps_keep_settings(machine: EnigmaView, n: nat)
    ensures
        machine.stepped_by(n).same_settings(machine),
        machine.wf() ==> machine.stepped_by(n).wf(),
    decreases n,
{
    if n > 0 {
        lemma_steps_keep_settings(machine, (n - 1) as nat);
        lemma_step_keeps_settings(machine.stepped_by((n - 1) as nat));
    }
}

/// The right rotor counts the steps: after `n` of them it stands `n` places
/// further on.
pub proof fn lemma_right_rotor_counts_steps(machine: EnigmaView, n: nat)
    requires
        machine.wf(),
    ensures
        machine.stepped_by(n).right.position == (machine.right.position + n) % 26,
    decreases n,
{
    if n > 0 {
        lemma_right_rotor_counts_steps(machine, (n - 1) as nat);
        let start = machine.right.position;
        let before = machine.stepped_by((n - 1) as nat).right.position;
        assert(machine.stepped_by(n).right.position == (before + 1) % 26);
        assert(((start + n - 1) % 26 + 1) % 26 == (start + n) % 26);
    }
}

/// A rotor at position `p` arrives at the position `q` with its `n`th step,
/// for `n` from 1 to 26, exactly when `n` is the number of steps from `p`
/// to `q`.
proof fn lemma_arrival(p: int, q: int, n: int)
    requires
        0 <= p < 26,
        0 <= q < 26,
        1 <= n <= 26,
    ensures
        ((p + n - 1) % 26 + 1) % 26 == (p + n) % 26,
        1 <= (q - p - 1) % 26 + 1 <= 26,
        ((p + n) % 26 == q) <==> (n == (q - p - 1) % 26 + 1),
{
    if p + n >= 26 {
        assert((p + n) % 26 == p + n - 26);
    } else {
        assert((p + n) % 26 == p + n);
    }
    if q - p - 1 < 0 {
        assert((q - p - 1) % 26 == q - p - 1 + 26);
    } else {
        assert((q - p - 1) % 26 == q - p - 1);
    }
}

/// Within one turn of the right rotor the middle rotor steps once, when the
/// right rotor arrives at its notch, and the left rotor steps with it if
/// that step brings the middle rotor to its own notch.
pub proof fn lemma_carry_within_a_turn(machine: EnigmaView, n: nat)
    requires
        machine.wf(),
        n <= 26,
    ensures
        n < machine.right.steps_to_notch() ==> {
            &&& machine.stepped_by(n).middle == machine.middle
            &&& machine.stepped_by(n).left == machine.left
        },
        n >= machine.right.steps_to_notch() ==> {
            &&& machine.stepped_by(n).middle == machine.middle.stepped()
            &&& machine.stepped_by(n).left == if machine.middle.stepped().at_notch() {
                machine.left.stepped()
            } else {
                machine.left
            }
        },
    decreases n,
{
    if n > 0 {
        let m = (n - 1) as nat;
        lemma_carry_within_a_turn(machine, m);
        lemma_right_rotor_counts_steps(machine, m);
        lemma_steps_keep_settings(machine, m);
        let before = machine.stepped_by(m);
        assert(before.right.notch == machine.right.notch);
        lemma_arrival(machine.right.position, machine.right.notch, n as int);
    }
}

/// A full turn of the right rotor, 26 steps, brings it back to where it was
/// and takes the middle rotor exactly one place further on.
pub proof fn lemma_full_turn(machine: EnigmaView)
    requires
        machine.wf(),
    ensures
        machine.stepped_by(26).right == machine.right,
        machine.stepped_by(26).middle == machine.middle.stepped(),
{
    lemma_carry_within_a_turn(machine, 26);
    lemma_right_rotor_counts_steps(machine, 26);
    lemma_steps_keep_settings(machine, 26);
}

/// Steps add up.
pub proof fn lemma_steps_add_up(machine: EnigmaView, a: nat, b: nat)
    ensures
        machine.stepped_by(a + b) == machine.stepped_by(a).stepped_by(b),
    decreases b,
{
    if b > 0 {
        lemma_steps_add_up(machine, a, (b - 1) as nat);
        assert((a + b - 1) as nat == a + (b - 1) as nat);
    }
}

/// Within one turn of the middle rotor, which is 26 turns of the right one,
/// the left rotor steps once: in the turn of the right rotor that brings the
/// middle rotor to its notch.
pub proof fn lemma_carry_within_many_turns(machine: EnigmaView, turns: nat)
    requires
        machine.wf(),
        turns <= 26,
    ensures
        machine.stepped_by(26 * turns).right == machine.right,
        machine.stepped_by(26 * turns).middle == machine.middle.at_position(
            (machine.middle.position + turns) % 26,
        ),
        machine.stepped_by(26 * turns).left == if turns >= machine.middle.steps_to_notch() {
            machine.left.stepped()
        } else {
            machine.left
        },
    decreases turns,
{
    if turns > 0 {
        let earlier = (turns - 1) as nat;
        lemma_carry_within_many_turns(machine, earlier);
        let before = machine.stepped_by(26 * earlier);
        let after = before.stepped_by(26);
        assert(machine.stepped_by(26 * turns) == after) by {
            lemma_steps_add_up(machine, 26 * earlier, 26);
            assert(26 * earlier + 26 == 26 * turns);
        }
        lemma_steps_keep_settings(machine, 26 * earlier);
        lemma_carry_within_a_turn(before, 26);
        lemma_full_turn(before);
        lemma_arrival(machine.middle.position, machine.middle.notch, turns as int);
        assert(after.right == machine.right);
        assert(before.middle.notch == machine.middle.notch);
        assert(after.middle == before.middle.stepped());
        assert(after.middle == machine.middle.at_position((machine.middle.position + turns) % 26));
        assert(after.left == if after.middle.at_notch() {
            before.left.stepped()
        } else {
            before.left
        });
    }
}

/// After 26 turns of the right rotor, 676 steps, the right and the middle
/// rotor are back where they were and the left rotor stands exactly one
/// place further on.
pub proof fn lemma_full_turn_of_the_middle_rotor(machine: EnigmaView)
    requires
        machine.wf(),
    ensures
        machine.stepped_by(676).right == machine.right,
        machine.stepped_by(676).middle == machine.middle,
        machine.stepped_by(676).left == machine.left.stepped(),
{
    lemma_carry_within_many_turns(machine, 26);
}

} // verus!
