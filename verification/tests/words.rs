use guessing_game::words::first_word;

#[test]
fn first_word_stops_at_the_first_space() {
    let s = String::from("Hello my name is ");
    assert_eq!(first_word(&s), "Hello");
}

#[test]
fn first_word_of_a_single_word_is_the_whole_string() {
    let s = String::from("Hello");
    assert_eq!(first_word(&s), "Hello");
}

#[test]
fn first_word_of_an_empty_string_is_empty() {
    let s = String::new();
    assert_eq!(first_word(&s), "");
}

#[test]
fn first_word_after_a_leading_space_is_empty() {
    let s = String::from(" trailing");
    assert_eq!(first_word(&s), "");
}

#[test]
fn first_word_of_two_words() {
    let s = String::from("a b");
    assert_eq!(first_word(&s), "a");
}
