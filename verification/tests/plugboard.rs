use enigma::error::Error;
use enigma::plugboard::Plugboard;

#[test]
fn empty_board_changes_nothing() {
    let board = Plugboard::new();
    for symbol in ['A', 'Z', 'a', ' ', '7'] {
        assert_eq!(board.apply(symbol), symbol);
    }
}

#[test]
fn a_cable_swaps_its_two_letters() {
    let mut board = Plugboard::new();
    board.set_pair('A', 'B').unwrap();
    assert_eq!(board.apply('A'), 'B');
    assert_eq!(board.apply('B'), 'A');
    assert_eq!(board.apply('C'), 'C');
}

#[test]
fn a_new_cable_frees_the_old_partner() {
    let mut board = Plugboard::new();
    board.set_pair('A', 'B').unwrap();
    board.set_pair('A', 'C').unwrap();
    assert_eq!(board.apply('A'), 'C');
    assert_eq!(board.apply('C'), 'A');
    assert_eq!(board.apply('B'), 'B');
}

#[test]
fn a_new_cable_frees_both_old_partners() {
    let mut board = Plugboard::new();
    board.set_pair('A', 'B').unwrap();
    board.set_pair('C', 'D').unwrap();
    board.set_pair('B', 'C').unwrap();
    assert_eq!(board.apply('A'), 'A');
    assert_eq!(board.apply('B'), 'C');
    assert_eq!(board.apply('C'), 'B');
    assert_eq!(board.apply('D'), 'D');
}

#[test]
fn the_same_cable_twice_is_the_same_board() {
    let mut board = Plugboard::new();
    board.set_pair('K', 'T').unwrap();
    board.set_pair('K', 'T').unwrap();
    assert_eq!(board.apply('K'), 'T');
    assert_eq!(board.apply('T'), 'K');
    board.set_pair('T', 'K').unwrap();
    assert_eq!(board.apply('K'), 'T');
    assert_eq!(board.apply('T'), 'K');
}

#[test]
fn a_cable_from_a_letter_to_itself_frees_it() {
    let mut board = Plugboard::new();
    board.set_pair('A', 'B').unwrap();
    board.set_pair('A', 'A').unwrap();
    assert_eq!(board.apply('A'), 'A');
    assert_eq!(board.apply('B'), 'B');
}

#[test]
fn cables_are_read_in_either_case() {
    let mut board = Plugboard::new();
    board.set_pair('x', 'y').unwrap();
    assert_eq!(board.apply('X'), 'Y');
    assert_eq!(board.apply('Y'), 'X');
    assert_eq!(board.apply('x'), 'x');
}

#[test]
fn a_cable_needs_two_letters() {
    let mut board = Plugboard::new();
    board.set_pair('A', 'B').unwrap();
    assert_eq!(board.set_pair('A', '1'), Err(Error::NonAlphabetic));
    assert_eq!(board.set_pair(' ', 'B'), Err(Error::NonAlphabetic));
    assert_eq!(board.set_pair('?', '!'), Err(Error::NonAlphabetic));
    assert_eq!(board.apply('A'), 'B');
    assert_eq!(board.apply('B'), 'A');
}

#[test]
fn thirteen_cables_cover_the_alphabet() {
    let mut board = Plugboard::new();
    let letters: Vec<char> = ('A'..='Z').collect();
    for pair in letters.chunks(2) {
        board.set_pair(pair[0], pair[1]).unwrap();
    }
    for pair in letters.chunks(2) {
        assert_eq!(board.apply(pair[0]), pair[1]);
        assert_eq!(board.apply(pair[1]), pair[0]);
    }
}
