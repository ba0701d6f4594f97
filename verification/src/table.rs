//! Wiring tables: `phf` maps from letter to letter.
//!
//! A table is a `phf::Map<char, char>`. The library reads tables through
//! `lookup` and makes its own through `build`; what it proves of a table it
//! proves of the pairs that the table holds. A table whose fields were
//! filled by hand may be one that `phf` cannot read; `can_be_read` tells.

use vstd::prelude::*;
use vstd::relations::injective_on;
use vstd::set_lib::{lemma_int_range, lemma_map_size, lemma_subset_equality, set_int_range};
use crate::alphabet::{
    index_letter, is_upper, letter_at, letter_index, ALPHABET_SIZE, FIRST_LETTER,
};

verus! {

/// `phf::Map`, taken as it is: of a table nothing is known but what
/// `pairs_of`, `entries_of` and `displacements_of` name.
#[verifier::external_type_specification]
#[verifier::external_body]
#[verifier::reject_recursive_types(K)]
#[verifier::reject_recursive_types(V)]
pub struct ExMap<K: 'static, V: 'static>(phf::Map<K, V>);

/// The pairs that a table holds: each key that `phf::Map::get` finds in it,
/// with the value that it finds for the key.
pub uninterp spec fn pairs_of(table: phf::Map<char, char>) -> Map<char, char>;

/// The number of entries of a table, which is what `phf::Map::len` gives.
pub uninterp spec fn entries_of(table: phf::Map<char, char>) -> nat;

/// The number of displacements of a table: the length of its `disps`.
pub uninterp spec fn displacements_of(table: phf::Map<char, char>) -> nat;

/// `phf` can read the table. A table without displacements holds nothing
/// and is read as such. One with displacements is read by a remainder by
/// the number of its displacements and one by the number of its entries,
/// each taken as a `u32`, so neither number may be zero there.
pub open spec fn is_readable(table: phf::Map<char, char>) -> bool {
    displacements_of(table) == 0 || {
        &&& displacements_of(table) <= u32::MAX
        &&& 0 < entries_of(table) <= u32::MAX
    }
}

/// `phf::Map::len`: the number of the table's entries.
#[verifier::external_body]
pub(crate) fn entry_count(table: &phf::Map<char, char>) -> (count: usize)
    ensures
        count == entries_of(*table),
{
    table.len()
}

/// The length of the table's `disps`, the field that `phf::Map::get` reads
/// its displacements from.
#[verifier::external_body]
pub(crate) fn displacement_count(table: &phf::Map<char, char>) -> (count: usize)
    ensures
        count == displacements_of(*table),
{
    table.disps.len()
}

/// `phf::Map::get`, with the value copied out: the value paired with `key`,
/// or `None` where the table has no such key. On a table that cannot be
/// read the call would fail on a remainder by zero.
#[verifier::external_body]
pub(crate) fn lookup(table: &phf::Map<char, char>, key: char) -> (value: Option<char>)
    requires
        is_readable(*table),
    ensures
        value == (if pairs_of(*table).contains_key(key) {
            Some(pairs_of(*table)[key])
        } else {
            None::<char>
        }),
{
    table.get(&key).copied()
}

/// Says whether `phf` can read the table.
pub fn can_be_read(table: &phf::Map<char, char>) -> (readable: bool)
    ensures
        readable == is_readable(*table),
{
    let displacements: usize = displacement_count(table);
    if displacements == 0 {
        return true;
    }
    let entries: usize = entry_count(table);
    displacements <= u32::MAX as usize && 0 < entries && entries <= u32::MAX as usize
}

/// `phf_generator::generate_hash` on the keys, and a `phf::Map` made of the
/// hash state that it gives: its `key`, its `disps`, and as entry `i` the
/// pair of the key that its `map` names at `i`, which is where
/// `phf::Map::get` looks for that key. The table pairs each key with the
/// value at the same place and has no other key. It has an entry for each
/// key and a displacement for every three entries or fewer. The keys must
/// differ from each other: on keys that do not, the search for a hash does
/// not end. The table is never freed, as one in a `static` is not.
#[verifier::external_body]
pub(crate) fn build(keys: &Vec<char>, values: &Vec<char>) -> (table: &'static phf::Map<char, char>)
    requires
        keys.len() == values.len(),
        forall|i: int, j: int| 0 <= i < j < keys.len() ==> keys[i] != keys[j],
    ensures
        forall|key: char| #[trigger] pairs_of(*table).contains_key(key) <==> keys@.contains(key),
        forall|i: int| 0 <= i < keys.len() ==> pairs_of(*table)[#[trigger] keys[i]] == values[i],
        entries_of(*table) == keys.len(),
        displacements_of(*table) == (keys.len() + 2) / 3,
{
    let state = phf_generator::generate_hash(keys);
    let entries: Vec<(char, char)> = state.map.iter().map(|&i| (keys[i], values[i])).collect();
    let table = phf::Map { key: state.key, disps: state.disps.leak(), entries: entries.leak() };
    Box::leak(Box::new(table))
}

/// What a table makes of a symbol: the value paired with it, or the symbol
/// itself where the table has no such key.
pub open spec fn image(pairs: Map<char, char>, symbol: char) -> char {
    if pairs.contains_key(symbol) {
        pairs[symbol]
    } else {
        symbol
    }
}

/// Every upper-case letter is a key of the table, and its value is an
/// upper-case letter.
pub open spec fn maps_letters(pairs: Map<char, char>) -> bool {
    forall|c: char| is_upper(c) ==> #[trigger] pairs.contains_key(c) && is_upper(pairs[c])
}

/// The two tables map the upper-case letters to upper-case letters, and each
/// undoes the other.
pub open spec fn inverse_tables(forward: Map<char, char>, backward: Map<char, char>) -> bool {
    &&& maps_letters(forward)
    &&& maps_letters(backward)
    &&& forall|c: char| is_upper(c) ==> backward[#[trigger] forward[c]] == c
    &&& forall|c: char| is_upper(c) ==> forward[#[trigger] backward[c]] == c
}

/// The first table maps the upper-case letter `c` to an upper-case letter
/// that the second maps back to `c`.
pub open spec fn undone_at(forward: Map<char, char>, backward: Map<char, char>, c: char) -> bool {
    &&& forward.contains_key(c)
    &&& is_upper(forward[c])
    &&& backward.contains_key(forward[c])
    &&& backward[forward[c]] == c
}

/// Both tables can be read, map the upper-case letters to upper-case
/// letters, and undo each other.
pub open spec fn readable_inverse_tables(
    forward: phf::Map<char, char>,
    backward: phf::Map<char, char>,
) -> bool {
    &&& is_readable(forward)
    &&& is_readable(backward)
    &&& inverse_tables(pairs_of(forward), pairs_of(backward))
}

/// Says whether the two tables can be read, map the upper-case letters to
/// upper-case letters and undo each other, by looking up every letter in
/// both.
pub fn are_inverse_tables(
    forward: &phf::Map<char, char>,
    backward: &phf::Map<char, char>,
) -> (inverse: bool)
    ensures
        inverse == readable_inverse_tables(*forward, *backward),
{
    if !can_be_read(forward) || !can_be_read(backward) {
        return false;
    }
    let mut i: u8 = 0;
    while i < ALPHABET_SIZE
        invariant
            i <= 26,
            is_readable(*forward),
            is_readable(*backward),
            forall|k: int|
                0 <= k < i ==> undone_at(
                    pairs_of(*forward),
                    pairs_of(*backward),
                    #[trigger] index_letter(k),
                ) && undone_at(pairs_of(*backward), pairs_of(*forward), index_letter(k)),
        decreases 26 - i,
    {
        let letter = letter_at(i);
        if !is_undone(forward, backward, letter) || !is_undone(backward, forward, letter) {
            return false;
        }
        i += 1;
    }
    proof {
        let there = pairs_of(*forward);
        let back = pairs_of(*backward);
        assert forall|c: char| is_upper(c) implies undone_at(there, back, c) && undone_at(
            back,
            there,
            c,
        ) by {
            assert(index_letter(letter_index(c)) == c);
        }
    }
    true
}

/// Says whether the first table maps the upper-case letter to an upper-case
/// letter that the second maps back to it.
fn is_undone(
    forward: &phf::Map<char, char>,
    backward: &phf::Map<char, char>,
    letter: char,
) -> (undone: bool)
    requires
        is_readable(*forward),
        is_readable(*backward),
        is_upper(letter),
    ensures
        undone == undone_at(pairs_of(*forward), pairs_of(*backward), letter),
{
    match lookup(forward, letter) {
        Some(there) => 'A' <= there && there <= 'Z' && match lookup(backward, there) {
            Some(back) => back == letter,
            None => false,
        },
        None => false,
    }
}

/// A table read by index: entry `i` is the index of the letter that the
/// letter with index `i` maps to.
pub open spec fn wiring_of(pairs: Map<char, char>) -> Seq<int> {
    Seq::new(26, |i: int| letter_index(pairs[index_letter(i)]))
}

/// `letters` holds 26 upper-case letters, and none of them twice.
pub open spec fn is_permutation(letters: Seq<char>) -> bool {
    &&& letters.len() == 26
    &&& forall|i: int| 0 <= i < 26 ==> is_upper(#[trigger] letters[i])
    &&& forall|i: int, j: int| 0 <= i < j < 26 ==> letters[i] != letters[j]
}

/// A permutation holds every upper-case letter.
pub proof fn lemma_permutation_holds_every_letter(letters: Seq<char>)
    requires
        is_permutation(letters),
    ensures
        forall|c: char| is_upper(c) ==> letters.contains(c),
{
    let places = set_int_range(0, 26);
    let index_at = |i: int| letter_index(letters[i]);
    let indices = places.map(index_at);
    lemma_int_range(0, 26);
    assert(injective_on(index_at, places)) by {
        assert forall|i: int, j: int|
            #![trigger index_at(i), index_at(j)]
            places.contains(i) && places.contains(j) && index_at(i) == index_at(j) implies i
            == j by {
            if i < j {
                assert(letters[i] != letters[j]);
            } else if j < i {
                assert(letters[j] != letters[i]);
            }
        }
    }
    lemma_map_size(places, indices, index_at);
    assert(indices.subset_of(places)) by {
        assert forall|n: int| indices.contains(n) implies places.contains(n) by {
            let i = choose|i: int| places.contains(i) && n == index_at(i);
            assert(is_upper(letters[i]));
        }
    }
    lemma_subset_equality(indices, places);
    assert forall|c: char| is_upper(c) implies letters.contains(c) by {
        let n = letter_index(c);
        assert(places.contains(n));
        assert(indices.contains(n));
        let i = choose|i: int| places.contains(i) && n == index_at(i);
        assert(letters[i] == c);
    }
}

/// The table that sends `A` to the first of `letters`, `B` to the second, and
/// so on.
pub open spec fn forward_pairs(letters: Seq<char>) -> Map<char, char> {
    Map::new(|c: char| is_upper(c), |c: char| letters[letter_index(c)])
}

/// The table that sends the first of `letters` to `A`, the second to `B`, and
/// so on.
pub open spec fn backward_pairs(letters: Seq<char>) -> Map<char, char> {
    Map::new(
        |c: char| letters.contains(c),
        |c: char| index_letter(choose|i: int| 0 <= i < letters.len() && letters[i] == c),
    )
}

/// The two tables of a permutation undo each other.
pub proof fn lemma_permutation_tables_are_inverse(letters: Seq<char>)
    requires
        is_permutation(letters),
    ensures
        inverse_tables(forward_pairs(letters), backward_pairs(letters)),
{
    lemma_permutation_holds_every_letter(letters);
    let f = forward_pairs(letters);
    let g = backward_pairs(letters);
    assert forall|c: char| is_upper(c) implies #[trigger] f.contains_key(c) && is_upper(f[c]) by {
        assert(is_upper(letters[letter_index(c)]));
    }
    assert forall|c: char| is_upper(c) implies g[#[trigger] f[c]] == c by {
        let i = letter_index(c);
        assert(letters[i] == f[c]);
        let k = choose|k: int| 0 <= k < letters.len() && letters[k] == f[c];
        assert(k == i);
    }
    assert forall|c: char| is_upper(c) implies f[#[trigger] g[c]] == c by {
        assert(letters.contains(c));
    }
}

/// A sequence of upper-case letters that another one undoes, place by
/// place, is a permutation.
pub proof fn lemma_permutation_by_inverse(letters: Seq<char>, origins: Seq<char>)
    requires
        letters.len() == 26,
        origins.len() == 26,
        forall|i: int| 0 <= i < 26 ==> is_upper(#[trigger] letters[i]),
        forall|i: int|
            0 <= i < 26 ==> origins[letter_index(#[trigger] letters[i])] == index_letter(i),
    ensures
        is_permutation(letters),
{
}

/// Builds, from the letters that `A` to `Z` map to, the table that maps them
/// so and the table that maps them back. There are no such tables unless
/// `letters` is a permutation of the upper-case alphabet.
pub fn bidir_map(letters: &str) -> (tables: Option<
    (&'static phf::Map<char, char>, &'static phf::Map<char, char>),
>)
    ensures
        tables is Some <==> is_permutation(letters@),
        tables matches Some((forward, backward)) ==> {
            &&& is_readable(*forward)
            &&& is_readable(*backward)
            &&& pairs_of(*forward) == forward_pairs(letters@)
            &&& pairs_of(*backward) == backward_pairs(letters@)
        },
{
    if letters.unicode_len() != ALPHABET_SIZE as usize {
        return None;
    }
    let mut keys: Vec<char> = Vec::new();
    let mut images: Vec<char> = Vec::new();
    let mut origins: Vec<char> = Vec::new();
    let mut found: Vec<bool> = Vec::new();
    let mut n: u8 = 0;
    while n < ALPHABET_SIZE
        invariant
            n <= 26,
            origins.len() == n,
            found.len() == n,
            forall|k: int| 0 <= k < n ==> !found[k],
        decreases 26 - n,
    {
        origins.push(FIRST_LETTER);
        found.push(false);
        n += 1;
    }
    let mut i: u8 = 0;
    while i < ALPHABET_SIZE
        invariant
            i <= 26,
            letters@.len() == 26,
            keys.len() == i,
            images.len() == i,
            origins.len() == 26,
            found.len() == 26,
            forall|k: int| 0 <= k < i ==> #[trigger] keys[k] == index_letter(k),
            forall|k: int| 0 <= k < i ==> #[trigger] images[k] == letters@[k],
            forall|k: int| 0 <= k < i ==> is_upper(#[trigger] letters@[k]),
            forall|k: int, l: int| 0 <= k < l < i ==> letters@[k] != letters@[l],
            forall|k: int|
                0 <= k < i ==> found[letter_index(#[trigger] letters@[k])] && origins[letter_index(
                    letters@[k],
                )] == index_letter(k),
            forall|n: int|
                0 <= n < 26 && #[trigger] found[n] ==> exists|k: int|
                    0 <= k < i && letters@[k] == index_letter(n),
        decreases 26 - i,
    {
        let image = letters.get_char(i as usize);
        if !('A' <= image && image <= 'Z') {
            return None;
        }
        let n: u8 = image as u8 - 'A' as u8;
        if found[n as usize] {
            return None;
        }
        let key = letter_at(i);
        found.set(n as usize, true);
        origins.set(n as usize, key);
        keys.push(key);
        images.push(image);
        i += 1;
    }
    let forward = build(&keys, &images);
    let backward = build(&keys, &origins);
    proof {
        lemma_permutation_holds_every_letter(letters@);
        assert forall|c: char| is_upper(c) <==> keys@.contains(c) by {
            if is_upper(c) {
                assert(keys[letter_index(c)] == c);
            }
        }
        assert forall|c: char| is_upper(c) implies pairs_of(*forward)[c] == letters@[letter_index(
            c,
        )] by {
            assert(keys[letter_index(c)] == c);
        }
        assert(pairs_of(*forward) =~= forward_pairs(letters@));
        assert forall|c: char| is_upper(c) implies pairs_of(*backward)[c] == backward_pairs(
            letters@,
        )[c] by {
            assert(keys[letter_index(c)] == c);
            assert(letters@.contains(c));
            let k = choose|k: int| 0 <= k < letters@.len() && letters@[k] == c;
            assert(origins[letter_index(letters@[k])] == index_letter(k));
        }
        assert(pairs_of(*backward) =~= backward_pairs(letters@));
    }
    Some((forward, backward))
}

} // verus!
