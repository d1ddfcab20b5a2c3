use genpi::random::{pick, pick_at, random_between, random_index, step_up};
use genpi::sex::{gen_sex, Sex};
use std::collections::HashSet;

#[test]
fn test_sample() {
    let set = (0..100).map(|_| Sex::sample()).collect::<HashSet<Sex>>();
    assert_eq!(set.len(), 2);
}

#[test]
fn both_sexes_are_generated() {
    let set = (0..100).map(|_| gen_sex()).collect::<HashSet<Sex>>();
    assert_eq!(set.len(), 2);
    let set = (0..100).map(|_| Sex::gen()).collect::<HashSet<Sex>>();
    assert_eq!(set.len(), 2);
}

#[test]
fn coin_decides_sex() {
    assert_eq!(Sex::from_coin(true), Sex::Female);
    assert_eq!(Sex::from_coin(false), Sex::Male);
}

#[test]
fn tokens_are_lowercase_words() {
    assert_eq!(Sex::Female.token(), "female");
    assert_eq!(Sex::Male.token(), "male");
}

#[test]
fn draws_lie_in_their_range() {
    let mut indices = HashSet::new();
    let mut numbers = HashSet::new();
    let mut picked = HashSet::new();
    let items = ['a', 'b', 'c'];
    for _ in 0..500 {
        let index = random_index(4);
        assert!(index < 4);
        indices.insert(index);
        let number = random_between(10, 12);
        assert!(10 <= number && number <= 12);
        numbers.insert(number);
        picked.insert(*pick(&items));
    }
    assert_eq!(indices.len(), 4);
    assert_eq!(numbers.len(), 3);
    assert_eq!(picked.len(), 3);
    assert_eq!(random_index(1), 0);
    assert_eq!(random_between(7, 7), 7);
    assert_eq!(random_between(u16::MAX, u16::MAX), u16::MAX);
    assert_eq!(*pick(&[Sex::Male]), Sex::Male);
}

#[test]
fn steps_and_indices_are_exact() {
    assert_eq!(step_up(10, 12, 0), 10);
    assert_eq!(step_up(10, 12, 2), 12);
    assert_eq!(step_up(0, u16::MAX, 65535), u16::MAX);
    let items = ['a', 'b', 'c'];
    assert_eq!(*pick_at(&items, 0), 'a');
    assert_eq!(*pick_at(&items, 2), 'c');
    assert_eq!(*pick_at(&[Sex::Female, Sex::Male], 1), Sex::Male);
}

#[test]
fn places_of_the_two_sexes() {
    assert_eq!(Sex::from_index(0), Sex::Female);
    assert_eq!(Sex::from_index(1), Sex::Male);
}
