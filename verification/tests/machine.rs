use enigma::error::Error;
use enigma::reflectors;
use enigma::rotor::rotors;
use enigma::rotor::{Rotor, RotorProps};
use enigma::table::bidir_map;
use enigma::Enigma;

#[test]
fn enigma_encrypts() {
    let left = rotors::create_rotor_3();
    let middle = rotors::create_rotor_2();
    let right = rotors::create_rotor_1();
    let reflector = reflectors::create_reflector_b();

    let mut enigma = Enigma::new(left, middle, right, reflector);

    let encrypted = enigma.encrypt(String::from("HelloWorld")).unwrap();

    assert_eq!(encrypted.as_str(), "MFNCZBBFZM");
}

#[test]
fn enigma_decrypts() {
    let left = rotors::create_rotor_3();
    let middle = rotors::create_rotor_2();
    let right = rotors::create_rotor_1();
    let reflector = reflectors::create_reflector_b();

    let mut enigma = Enigma::new(left, middle, right, reflector);

    let deciphered = enigma.encrypt(String::from("MFNCZBBFZM")).unwrap();

    assert_eq!(deciphered, "HELLOWORLD");
}

#[test]
fn enigma_encrypts_and_decrypts_long_text() {
    let left = rotors::create_rotor_3();
    let middle = rotors::create_rotor_2();
    let right = rotors::create_rotor_1();
    let reflector = reflectors::create_reflector_b();

    let mut enigma = Enigma::new(left, middle, right, reflector);

    let text = String::from("The afternoon arrived quietly, as afternoons often do, carrying with it a sense of polite uncertainty and a mild awareness of its own existence. Nothing in particular happened, and yet several things occurred in a manner that suggested they might matter later, even though they never did. The room held its shape confidently, filled with air that had clearly been there for some time, and the furniture agreed silently to continue being furniture.
A man sat near a window that did not request attention, observing the way light behaved when it decided not to behave at all. The light was neither bright nor dim, but something in between that implied commitment without requiring follow-through. He considered standing up, briefly, and then chose to remain seated, which felt like a decision worthy of internal acknowledgment.
Outside, the street continued being a street with admirable consistency. Cars passed by with destinations they believed in deeply, and pedestrians walked with expressions suggesting they were thinking about something unrelated to walking. A dog paused to reconsider its priorities, then resumed them exactly as before.");
    let cleaned_text = text
        .replace(" ", "")
        .replace(",", "")
        .replace(".", "")
        .replace("-", "")
        .replace("\n", "");

    let cipher = enigma.encrypt(cleaned_text.clone()).unwrap();
    enigma.set_left_rotor(rotors::create_rotor_3());
    enigma.set_middle_rotor(rotors::create_rotor_2());
    enigma.set_right_rotor(rotors::create_rotor_1());

    let plain = enigma.encrypt(cipher).unwrap();

    assert_eq!(plain, cleaned_text.to_ascii_uppercase())
}

#[test]
fn enigma_position_set_properly() {
    let left = rotors::create_rotor_3();
    let middle = rotors::create_rotor_2();
    let right = rotors::create_rotor_1();
    let reflector = reflectors::create_reflector_b();

    let mut enigma = Enigma::new(left, middle, right, reflector);

    let encrypted = enigma.encrypt(String::from("HelloWorld")).unwrap();

    enigma.set_left_rotor_position('A').unwrap();
    enigma.set_middle_rotor_position('A').unwrap();
    enigma.set_right_rotor_position('A').unwrap();

    let plain = enigma.encrypt(encrypted).unwrap();

    assert_eq!(plain, "HELLOWORLD");
}

#[test]
fn rotor_state_should_change() {
    let left = rotors::create_rotor_3();
    let middle = rotors::create_rotor_2();
    let right = rotors::create_rotor_1();
    let reflector = reflectors::create_reflector_b();

    let mut enigma = Enigma::new(left, middle, right, reflector);

    let text = String::from(
        "AAAAAAAAAAAAAAAAAAAAAAAAAAAAAAAAAAAAAAAAAAAAAAAAAAAAAAAAAAAAAAAAAAAAAAAAAAAAAAAAAAAAAAAAAAAAAAAAAAAAAAAAAAAAAAAAAAAAAAAAAAAAAAAAAAAAAAAAAAAAAAAAAAA",
    );
    let _ = enigma.encrypt(text);

    assert_ne!(enigma.get_left_rotor_position(), 'A');
    assert_ne!(enigma.get_middle_rotor_position(), 'A');
    assert_ne!(enigma.get_right_rotor_position(), 'A');
}

#[test]
fn non_alphabetic_encryption_should_return_error() {
    let left = rotors::create_rotor_3();
    let middle = rotors::create_rotor_2();
    let right = rotors::create_rotor_1();
    let reflector = reflectors::create_reflector_b();

    let mut enigma = Enigma::new(left, middle, right, reflector);

    let r = enigma.encrypt_char(' ');
    assert_eq!(r.err().unwrap(), Error::NonAlphabetic)
}

#[test]
fn encrypt_and_decrypt_with_transpositions_should_result_in_plain() {
    let left = rotors::create_rotor_2();
    let mid = rotors::create_rotor_1();
    let right = rotors::create_rotor_4();

    let reflector = reflectors::create_reflector_a();

    let mut enigma = Enigma::new(left, mid, right, reflector);

    enigma.set_transposition('H', 'G').unwrap();
    enigma.set_transposition('I', 'D').unwrap();
    enigma.set_transposition('Z', 'U').unwrap();
    enigma.set_transposition('B', 'X').unwrap();
    enigma.set_transposition('F', 'W').unwrap();
    enigma.set_transposition('A', 'M').unwrap();
    enigma.set_transposition('Q', 'V').unwrap();
    enigma.set_transposition('K', 'N').unwrap();
    enigma.set_transposition('P', 'E').unwrap();

    enigma.set_left_rotor_position('G').unwrap();
    enigma.set_middle_rotor_position('I').unwrap();
    enigma.set_right_rotor_position('I').unwrap();

    let cipher = enigma.encrypt(String::from("internal")).unwrap();

    enigma.set_left_rotor_position('G').unwrap();
    enigma.set_middle_rotor_position('I').unwrap();
    enigma.set_right_rotor_position('I').unwrap();

    let decipher = enigma.encrypt(cipher).unwrap();

    assert_eq!(decipher, "INTERNAL");
}

fn standard_machine() -> Enigma {
    Enigma::new(
        rotors::create_rotor_3(),
        rotors::create_rotor_2(),
        rotors::create_rotor_1(),
        reflectors::create_reflector_b(),
    )
}

fn positions(enigma: &Enigma) -> String {
    let mut all = String::new();
    all.push(enigma.get_left_rotor_position());
    all.push(enigma.get_middle_rotor_position());
    all.push(enigma.get_right_rotor_position());
    all
}

#[test]
fn transposed_cipher_text_is_exact() {
    let mut enigma = Enigma::new(
        rotors::create_rotor_2(),
        rotors::create_rotor_1(),
        rotors::create_rotor_4(),
        reflectors::create_reflector_a(),
    );
    for (first, second) in [
        ('H', 'G'),
        ('I', 'D'),
        ('Z', 'U'),
        ('B', 'X'),
        ('F', 'W'),
        ('A', 'M'),
        ('Q', 'V'),
        ('K', 'N'),
        ('P', 'E'),
    ] {
        enigma.set_transposition(first, second).unwrap();
    }
    enigma.set_left_rotor_position('G').unwrap();
    enigma.set_middle_rotor_position('I').unwrap();
    enigma.set_right_rotor_position('I').unwrap();

    assert_eq!(enigma.encrypt(String::from("internal")).unwrap(), "SEHFLHJE");
    assert_eq!(positions(&enigma), "GJQ");
}

#[test]
fn empty_text_gives_empty_text_and_no_step() {
    let mut enigma = standard_machine();
    assert_eq!(enigma.encrypt(String::new()).unwrap(), "");
    assert_eq!(positions(&enigma), "AAA");
}

#[test]
fn single_symbols_match_the_text() {
    let mut enigma = standard_machine();
    let mut out = String::new();
    for symbol in "HelloWorld".chars() {
        out.push(enigma.encrypt_char(symbol).unwrap());
    }
    assert_eq!(out, "MFNCZBBFZM");
    assert_eq!(positions(&enigma), "AAK");
}

#[test]
fn refused_symbol_still_steps_the_right_rotor() {
    let mut enigma = standard_machine();
    assert_eq!(enigma.encrypt_char('1'), Err(Error::NonAlphabetic));
    assert_eq!(positions(&enigma), "AAB");
    assert_eq!(enigma.encrypt_char('é'), Err(Error::NonAlphabetic));
    assert_eq!(positions(&enigma), "AAC");
}

#[test]
fn refused_symbol_steps_through_a_notch() {
    let mut enigma = standard_machine();
    enigma.set_right_rotor_position('Q').unwrap();
    enigma.set_middle_rotor_position('E').unwrap();
    assert_eq!(enigma.encrypt_char(' '), Err(Error::NonAlphabetic));
    assert_eq!(positions(&enigma), "BFR");
}

#[test]
fn text_stops_at_the_first_refused_symbol() {
    let mut enigma = standard_machine();
    assert_eq!(enigma.encrypt(String::from("He llo")), Err(Error::NonAlphabetic));
    assert_eq!(positions(&enigma), "AAD");

    let mut fresh = standard_machine();
    fresh.encrypt_char('H').unwrap();
    fresh.encrypt_char('e').unwrap();
    let _ = fresh.encrypt_char(' ');
    assert_eq!(fresh.encrypt_char('l'), enigma.encrypt_char('l'));
}

#[test]
fn right_rotor_carries_at_its_notch_only() {
    let mut enigma = standard_machine();
    enigma.encrypt(String::from("AAAAAAAAAAAAAAAA")).unwrap();
    assert_eq!(positions(&enigma), "AAQ");
    enigma.encrypt_char('A').unwrap();
    assert_eq!(positions(&enigma), "ABR");
    enigma.encrypt_char('A').unwrap();
    assert_eq!(positions(&enigma), "ABS");
}

#[test]
fn long_run_positions_are_exact() {
    let mut enigma = standard_machine();
    let text: String = std::iter::repeat('A').take(147).collect();
    enigma.encrypt(text).unwrap();
    assert_eq!(positions(&enigma), "BGR");
}

#[test]
fn a_full_turn_brings_the_right_rotor_back() {
    let mut enigma = standard_machine();
    let text: String = std::iter::repeat('Q').take(26).collect();
    enigma.encrypt(text).unwrap();
    assert_eq!(positions(&enigma), "ABA");
}

#[test]
fn encryption_leaves_the_settings_alone() {
    let mut enigma = standard_machine();
    enigma.set_transposition('a', 'b').unwrap();
    let first = enigma.encrypt(String::from("ATTACKATDAWN")).unwrap();
    enigma.set_left_rotor_position('A').unwrap();
    enigma.set_middle_rotor_position('A').unwrap();
    enigma.set_right_rotor_position('A').unwrap();
    let second = enigma.encrypt(String::from("ATTACKATDAWN")).unwrap();
    assert_eq!(first, second);
}

#[test]
fn lower_case_is_read_as_upper_case() {
    let mut lower = standard_machine();
    let mut upper = standard_machine();
    assert_eq!(
        lower.encrypt(String::from("helloworld")).unwrap(),
        upper.encrypt(String::from("HELLOWORLD")).unwrap()
    );
}

#[test]
fn refused_cable_changes_nothing() {
    let mut enigma = standard_machine();
    assert_eq!(enigma.set_transposition('A', '7'), Err(Error::NonAlphabetic));
    assert_eq!(enigma.set_transposition('-', 'B'), Err(Error::NonAlphabetic));
    assert_eq!(enigma.encrypt(String::from("HelloWorld")).unwrap(), "MFNCZBBFZM");
}

#[test]
fn refused_position_changes_nothing() {
    let mut enigma = standard_machine();
    assert_eq!(enigma.set_right_rotor_position('3'), Err(Error::NonAlphabetic));
    assert_eq!(enigma.set_middle_rotor_position(' '), Err(Error::NonAlphabetic));
    assert_eq!(enigma.set_left_rotor_position('#'), Err(Error::NonAlphabetic));
    assert_eq!(positions(&enigma), "AAA");
    assert_eq!(enigma.set_right_rotor_position('k'), Ok(()));
    assert_eq!(positions(&enigma), "AAK");
}

#[test]
fn another_reflector_gives_another_text() {
    let mut enigma = standard_machine();
    let with_b = enigma.encrypt(String::from("HELLOWORLD")).unwrap();
    let mut enigma = standard_machine();
    enigma.set_reflector(reflectors::create_reflector_c());
    let with_c = enigma.encrypt(String::from("HELLOWORLD")).unwrap();
    assert_ne!(with_b, with_c);
    enigma.set_left_rotor_position('A').unwrap();
    enigma.set_middle_rotor_position('A').unwrap();
    enigma.set_right_rotor_position('A').unwrap();
    assert_eq!(enigma.encrypt(with_c).unwrap(), "HELLOWORLD");
}

fn rotor(wiring: &'static str, notch: char, position: char, ring_setting: char) -> Rotor {
    let (permutation, inverse) = bidir_map(wiring).unwrap();
    Rotor::new(RotorProps::new(permutation, inverse, notch, "Rotor"), position, ring_setting)
}

#[test]
fn a_full_turn_of_the_middle_rotor_steps_the_left_one() {
    let mut enigma = standard_machine();
    let text: String = std::iter::repeat('A').take(676).collect();
    enigma.encrypt(text).unwrap();
    assert_eq!(positions(&enigma), "BAA");
}

#[test]
fn a_carry_can_run_through_both_rotors() {
    let mut enigma = Enigma::new(
        rotors::create_rotor_5(),
        rotors::create_rotor_4(),
        rotors::create_rotor_3(),
        reflectors::create_reflector_a(),
    );
    enigma.set_left_rotor_position('Y').unwrap();
    enigma.set_middle_rotor_position('J').unwrap();
    enigma.set_right_rotor_position('U').unwrap();
    assert_eq!(enigma.encrypt(String::from("ZZ")).unwrap(), "AE");
    assert_eq!(positions(&enigma), "ZKW");
    assert_eq!(enigma.encrypt(String::from("ZZ")).unwrap(), "WW");
    assert_eq!(positions(&enigma), "ZKY");
}

#[test]
fn ring_setting_n_takes_back_its_own_text() {
    let machine = || {
        let mut enigma = Enigma::new(
            rotor("BDFHJLCPRTXVZNYEIWGAKMUSQO", 'W', 'A', 'N'),
            rotor("AJDKSIRUXBLHWTMCQGZNPYFVOE", 'F', 'K', 'N'),
            rotor("EKMFLGDQVZNTOWYHXUSPAIBRCJ", 'R', 'Q', 'N'),
            reflectors::create_reflector_c(),
        );
        enigma.set_transposition('a', 'z').unwrap();
        enigma
    };
    let mut enigma = machine();
    assert_eq!(enigma.encrypt(String::from("ATTACKATDAWN")).unwrap(), "QXKODOEUQMTY");
    assert_eq!(positions(&enigma), "ALC");
    let mut enigma = machine();
    assert_eq!(enigma.encrypt(String::from("QXKODOEUQMTY")).unwrap(), "ATTACKATDAWN");
}

#[test]
fn ring_setting_b_does_not_take_back_its_own_text() {
    let machine = || {
        Enigma::new(
            rotors::create_rotor_3(),
            rotors::create_rotor_2(),
            rotor("EKMFLGDQVZNTOWYHXUSPAIBRCJ", 'R', 'A', 'B'),
            reflectors::create_reflector_b(),
        )
    };
    let mut enigma = machine();
    assert_eq!(enigma.encrypt(String::from("HELLOWORLD")).unwrap(), "IDFEJIYXWT");
    let mut enigma = machine();
    assert_eq!(enigma.encrypt(String::from("IDFEJIYXWT")).unwrap(), "LWZBAENUPQ");
}

#[test]
fn positions_can_be_set_by_index() {
    let mut enigma = standard_machine();
    assert_eq!(enigma.set_left_rotor_position_from_int(2), Ok(()));
    assert_eq!(enigma.set_middle_rotor_position_from_int(25), Ok(()));
    assert_eq!(enigma.set_right_rotor_position_from_int(0), Ok(()));
    assert_eq!(positions(&enigma), "CZA");
    assert_eq!(enigma.set_left_rotor_position_from_int(26), Err(Error::InvalidPosition));
    assert_eq!(enigma.set_middle_rotor_position_from_int(200), Err(Error::InvalidPosition));
    assert_eq!(enigma.set_right_rotor_position_from_int(255), Err(Error::InvalidPosition));
    assert_eq!(positions(&enigma), "CZA");
}

#[test]
fn positions_by_index_and_by_letter_agree() {
    let mut by_index = standard_machine();
    let mut by_letter = standard_machine();
    by_index.set_left_rotor_position_from_int(6).unwrap();
    by_index.set_middle_rotor_position_from_int(8).unwrap();
    by_index.set_right_rotor_position_from_int(8).unwrap();
    by_letter.set_left_rotor_position('G').unwrap();
    by_letter.set_middle_rotor_position('I').unwrap();
    by_letter.set_right_rotor_position('I').unwrap();
    assert_eq!(
        by_index.encrypt(String::from("internal")).unwrap(),
        by_letter.encrypt(String::from("internal")).unwrap()
    );
}

#[test]
fn the_machine_keeps_the_names_of_its_parts() {
    let mut enigma = standard_machine();
    let described = format!("{:?}", enigma);
    for name in ["Rotor 3", "Rotor 2", "Rotor 1", "Reflector B"] {
        assert!(described.contains(name));
    }
    enigma.encrypt(String::from("HelloWorld")).unwrap();
    let _ = enigma.encrypt_char(' ');
    enigma.set_transposition('A', 'B').unwrap();
    enigma.set_left_rotor_position('C').unwrap();
    assert_eq!(enigma.encrypt_char('x').is_ok(), true);
    let described = format!("{:?}", enigma);
    for name in ["Rotor 3", "Rotor 2", "Rotor 1", "Reflector B"] {
        assert!(described.contains(name));
    }
}

#[test]
fn a_new_part_comes_with_its_name() {
    let mut enigma = standard_machine();
    enigma.set_reflector(reflectors::create_reflector_c());
    enigma.set_left_rotor(rotors::create_rotor_5());
    enigma.set_middle_rotor(rotors::create_rotor_4());
    let described = format!("{:?}", enigma);
    for name in ["Rotor 5", "Rotor 4", "Rotor 1", "Reflector C"] {
        assert!(described.contains(name));
    }
    for name in ["Rotor 3", "Rotor 2", "Reflector B"] {
        assert!(!described.contains(name));
    }
}
