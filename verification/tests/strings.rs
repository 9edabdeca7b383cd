use study_journal::borrowing;
use study_journal::borrowing::{change, dangle};
use study_journal::functions::five;
use study_journal::ownership;
use study_journal::ownership::{gives_ownership, takes_and_gives_back};

#[test]
fn five_is_five() {
    assert_eq!(five(), 5);
}

#[test]
fn gives_ownership_hands_out_yours() {
    assert_eq!(gives_ownership(), "yours");
}

#[test]
fn takes_and_gives_back_returns_its_argument() {
    assert_eq!(takes_and_gives_back(String::from("hello")), "hello");
    assert_eq!(takes_and_gives_back(String::new()), "");
}

#[test]
fn owned_length_comes_back_with_the_string() {
    let (s, length) = ownership::calculate_length(String::from("hello"));
    assert_eq!(s, "hello");
    assert_eq!(length, 5);
}

#[test]
fn owned_length_counts_bytes() {
    let (s, length) = ownership::calculate_length(String::from("\u{2124}\u{1f980}"));
    assert_eq!(s, "\u{2124}\u{1f980}");
    assert_eq!(length, 7);
}

#[test]
fn borrowed_length_counts_bytes() {
    assert_eq!(borrowing::calculate_length(&String::from("hello")), 5);
    assert_eq!(borrowing::calculate_length(&String::new()), 0);
    assert_eq!(borrowing::calculate_length(&String::from("\u{e9}")), 2);
}

#[test]
fn change_appends_world() {
    let mut s = String::from("hello");
    change(&mut s);
    assert_eq!(s, "hello, world");
    change(&mut s);
    assert_eq!(s, "hello, world, world");
}

#[test]
fn change_on_empty_string() {
    let mut s = String::new();
    change(&mut s);
    assert_eq!(s, ", world");
}

#[test]
fn dangle_hands_out_hello() {
    assert_eq!(dangle(), "hello");
}
