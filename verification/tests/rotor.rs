use enigma::error::Error;
use enigma::rotor::rotors;
use enigma::rotor::{Rotor, RotorProps};
use enigma::table::bidir_map;

fn rotor_1_at(position: char, ring_setting: char) -> Rotor {
    let (permutation, inverse) = bidir_map("EKMFLGDQVZNTOWYHXUSPAIBRCJ").unwrap();
    Rotor::new(RotorProps::new(permutation, inverse, 'R', "Rotor 1"), position, ring_setting)
}

#[test]
fn fresh_rotor_maps_by_its_wiring() {
    let rotor = rotors::create_rotor_1();
    assert_eq!(rotor.get_position(), 'A');
    assert_eq!(rotor.map_letter('A'), Ok('E'));
    assert_eq!(rotor.map_letter('z'), Ok('J'));
    assert_eq!(rotor.inverse_map_letter('A'), Ok('U'));
    assert_eq!(rotor.inverse_map_letter('E'), Ok('A'));
}

#[test]
fn turned_rotor_maps_through_its_offset() {
    let rotor = rotor_1_at('B', 'A');
    assert_eq!(rotor.map_letter('A'), Ok('J'));
    assert_eq!(rotor.inverse_map_letter('A'), Ok('V'));
}

#[test]
fn ring_setting_shifts_the_two_ways_apart() {
    let rotor = rotor_1_at('C', 'B');
    let forward: String = ('A'..='Z').map(|c| rotor.map_letter(c).unwrap()).collect();
    let backward: String = ('A'..='Z').map(|c| rotor.inverse_map_letter(c).unwrap()).collect();
    assert_eq!(forward, "JLEKFCPUYMSNVXGWTROZHAQBID");
    assert_eq!(backward, "DXACMSWYBZHJQEUPIOFKNLGRTV");
}

#[test]
fn ring_setting_is_read_in_either_case() {
    let lower = rotor_1_at('c', 'b');
    let upper = rotor_1_at('C', 'B');
    assert_eq!(lower.get_position(), 'C');
    for symbol in 'A'..='Z' {
        assert_eq!(lower.map_letter(symbol), upper.map_letter(symbol));
    }
}

#[test]
fn the_way_back_undoes_the_way_in_without_ring_setting() {
    for position in 'A'..='Z' {
        let rotor = rotor_1_at(position, 'A');
        for symbol in 'A'..='Z' {
            let mapped = rotor.map_letter(symbol).unwrap();
            assert_eq!(rotor.inverse_map_letter(mapped), Ok(symbol));
        }
    }
}

#[test]
fn mapping_refuses_what_is_no_letter() {
    let rotor = rotors::create_rotor_2();
    assert_eq!(rotor.map_letter(' '), Err(Error::NonAlphabetic));
    assert_eq!(rotor.map_letter('@'), Err(Error::NonAlphabetic));
    assert_eq!(rotor.map_letter('['), Err(Error::NonAlphabetic));
    assert_eq!(rotor.map_letter('`'), Err(Error::NonAlphabetic));
    assert_eq!(rotor.map_letter('{'), Err(Error::NonAlphabetic));
    assert_eq!(rotor.inverse_map_letter('5'), Err(Error::NonAlphabetic));
    assert_eq!(rotor.inverse_map_letter('ß'), Err(Error::NonAlphabetic));
}

#[test]
fn increment_wraps_and_reports_the_notch() {
    let mut rotor = rotors::create_rotor_1();
    for expected in 'B'..='Q' {
        assert!(!rotor.increment());
        assert_eq!(rotor.get_position(), expected);
    }
    assert!(rotor.increment());
    assert_eq!(rotor.get_position(), 'R');
    for _ in 0..8 {
        assert!(!rotor.increment());
    }
    assert_eq!(rotor.get_position(), 'Z');
    assert!(!rotor.increment());
    assert_eq!(rotor.get_position(), 'A');
}

#[test]
fn rotor_5_carries_on_arriving_at_a() {
    let mut rotor = rotors::create_rotor_5();
    rotor.set_position('Z').unwrap();
    assert!(rotor.increment());
    assert_eq!(rotor.get_position(), 'A');
}

#[test]
fn increment_and_map_steps_first() {
    let mut rotor = rotors::create_rotor_1();
    assert_eq!(rotor.increment_and_map('A'), Ok('J'));
    assert_eq!(rotor.get_position(), 'B');
}

#[test]
fn increment_and_map_steps_even_when_it_refuses() {
    let mut rotor = rotors::create_rotor_1();
    assert_eq!(rotor.increment_and_map('?'), Err(Error::NonAlphabetic));
    assert_eq!(rotor.get_position(), 'B');
}

#[test]
fn set_position_takes_letters_only() {
    let mut rotor = rotors::create_rotor_3();
    assert_eq!(rotor.set_position('m'), Ok(()));
    assert_eq!(rotor.get_position(), 'M');
    assert_eq!(rotor.set_position('9'), Err(Error::NonAlphabetic));
    assert_eq!(rotor.get_position(), 'M');
}

#[test]
fn set_position_from_int_takes_indices_only() {
    let mut rotor = rotors::create_rotor_3();
    assert_eq!(rotor.set_position_from_int(25), Ok(()));
    assert_eq!(rotor.get_position(), 'Z');
    assert_eq!(rotor.set_position_from_int(26), Err(Error::InvalidPosition));
    assert_eq!(rotor.set_position_from_int(255), Err(Error::InvalidPosition));
    assert_eq!(rotor.get_position(), 'Z');
    assert_eq!(rotor.set_position_from_int(0), Ok(()));
    assert_eq!(rotor.get_position(), 'A');
}

#[test]
fn catalogue_rotors_have_their_wirings() {
    let wired = [
        (rotors::create_rotor_1(), "EKMFLGDQVZNTOWYHXUSPAIBRCJ"),
        (rotors::create_rotor_2(), "AJDKSIRUXBLHWTMCQGZNPYFVOE"),
        (rotors::create_rotor_3(), "BDFHJLCPRTXVZNYEIWGAKMUSQO"),
        (rotors::create_rotor_4(), "ESOVPZJAYQUIRHXLNFTGKDCMWB"),
        (rotors::create_rotor_5(), "VZBRGITYUPSDNHLXAWMJQOFECK"),
    ];
    for (rotor, wiring) in wired {
        let forward: String = ('A'..='Z').map(|c| rotor.map_letter(c).unwrap()).collect();
        assert_eq!(forward, wiring);
        for symbol in 'A'..='Z' {
            let mapped = rotor.map_letter(symbol).unwrap();
            assert_eq!(rotor.inverse_map_letter(mapped), Ok(symbol));
        }
    }
}

#[test]
fn catalogue_rotors_have_their_notches() {
    let notched = [
        (rotors::create_rotor_1(), 'R'),
        (rotors::create_rotor_2(), 'F'),
        (rotors::create_rotor_3(), 'W'),
        (rotors::create_rotor_4(), 'K'),
        (rotors::create_rotor_5(), 'A'),
    ];
    for (mut rotor, notch) in notched {
        for _ in 0..26 {
            let carry = rotor.increment();
            assert_eq!(carry, rotor.get_position() == notch);
        }
    }
}

#[test]
fn checked_kind_needs_tables_that_undo_each_other() {
    let (forward, backward) = bidir_map("EKMFLGDQVZNTOWYHXUSPAIBRCJ").unwrap();
    let (other, _) = bidir_map("AJDKSIRUXBLHWTMCQGZNPYFVOE").unwrap();
    assert!(RotorProps::checked(forward, backward, 'R', "Rotor 1").is_some());
    assert!(RotorProps::checked(backward, forward, 'r', "Rotor 1 turned over").is_some());
    assert!(RotorProps::checked(forward, other, 'R', "Mismatch").is_none());
    assert!(RotorProps::checked(forward, forward, 'R', "Twice the way in").is_none());
    assert!(RotorProps::checked(forward, backward, '4', "No notch").is_none());
    let empty: &'static phf::Map<char, char> = Box::leak(Box::new(phf::Map::new()));
    assert!(RotorProps::checked(forward, empty, 'R', "No way back").is_none());
    assert!(RotorProps::checked(empty, empty, 'R', "No wiring").is_none());
}

#[test]
fn checked_kind_makes_the_same_rotor() {
    let (forward, backward) = bidir_map("EKMFLGDQVZNTOWYHXUSPAIBRCJ").unwrap();
    let props = RotorProps::checked(forward, backward, 'R', "Rotor 1").unwrap();
    let mut rotor = Rotor::new(props, 'Q', 'A');
    let reference = rotor_1_at('Q', 'A');
    for symbol in 'A'..='Z' {
        assert_eq!(rotor.map_letter(symbol), reference.map_letter(symbol));
    }
    assert!(rotor.increment());
}
