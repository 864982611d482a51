use guessing_game::game::{secret_from_seed, Feedback, GuessingGame};

#[test]
fn scenario_secret_42() {
    let mut g = GuessingGame::new(42);
    assert!(!g.won());
    assert_eq!(g.guess("7"), Some(Feedback::TooSmall));
    assert!(!g.won());
    assert_eq!(g.guess("abc"), None);
    assert!(!g.won());
    assert_eq!(g.guess("99"), Some(Feedback::TooBig));
    assert!(!g.won());
    let r = g.guess("42");
    assert_eq!(r, Some(Feedback::Win));
    assert_eq!(r.unwrap().message(), "You win!");
    assert!(g.won());
}

#[test]
fn scenario_messages_in_order() {
    let mut g = GuessingGame::new(42);
    let mut out: Vec<String> = Vec::new();
    for line in ["7", "abc", "99", "42"] {
        if let Some(f) = g.guess(line) {
            out.push(f.message().to_string());
        }
    }
    assert_eq!(out, vec!["Too small!", "Too big!", "You win!"]);
    assert!(g.won());
}

#[test]
fn exact_guess_wins_for_every_secret() {
    for n in 1u32..=100 {
        let mut g = GuessingGame::new(n);
        let line = format!("{}", n);
        assert_eq!(g.guess(&line), Some(Feedback::Win));
        assert!(g.won());
    }
}

#[test]
fn low_guesses_continue() {
    for n in 2u32..=100 {
        let mut g = GuessingGame::new(n);
        assert_eq!(g.guess(&format!("{}", n - 1)), Some(Feedback::TooSmall));
        assert!(!g.won());
        assert_eq!(g.guess("1"), Some(Feedback::TooSmall));
        assert!(!g.won());
    }
}

#[test]
fn high_guesses_continue() {
    for n in 1u32..=99 {
        let mut g = GuessingGame::new(n);
        assert_eq!(g.guess(&format!("{}", n + 1)), Some(Feedback::TooBig));
        assert!(!g.won());
        assert_eq!(g.guess("101"), Some(Feedback::TooBig));
        assert!(!g.won());
    }
}

#[test]
fn bad_input_changes_nothing() {
    let mut g = GuessingGame::new(33);
    assert_eq!(g.guess("abc"), None);
    assert_eq!(g.guess(""), None);
    assert_eq!(g.guess("   "), None);
    assert_eq!(g.guess("-5"), None);
    assert_eq!(g.guess("3 3"), None);
    assert!(!g.won());
    assert_eq!(g.guess("33"), Some(Feedback::Win));
    assert!(g.won());
}

#[test]
fn out_of_range_input_is_discarded_like_non_numeric() {
    let mut g = GuessingGame::new(42);
    assert_eq!(g.guess("4294967296"), None);
    assert_eq!(g.guess("18446744073709551616"), None);
    assert_eq!(g.guess("99999999999999999999999999"), None);
    assert!(!g.won());
    assert_eq!(g.guess("42"), Some(Feedback::Win));
}

#[test]
fn whitespace_around_a_guess_is_tolerated() {
    let mut g = GuessingGame::new(50);
    assert_eq!(g.guess("  49 \n"), Some(Feedback::TooSmall));
    assert_eq!(g.guess("\t51\r\n"), Some(Feedback::TooBig));
    assert_eq!(g.guess(" 50\n"), Some(Feedback::Win));
}

#[test]
fn feedback_messages() {
    assert_eq!(Feedback::TooSmall.message(), "Too small!");
    assert_eq!(Feedback::TooBig.message(), "Too big!");
    assert_eq!(Feedback::Win.message(), "You win!");
}

#[test]
fn new_game_holds_its_secret() {
    let g = GuessingGame::new(1);
    assert!(!g.won());
    let mut g = GuessingGame::new(100);
    assert_eq!(g.guess("100"), Some(Feedback::Win));
}

#[test]
fn secret_from_seed_stays_in_range() {
    assert_eq!(secret_from_seed(0), 1);
    assert_eq!(secret_from_seed(99), 100);
    assert_eq!(secret_from_seed(100), 1);
    assert_eq!(secret_from_seed(101), 2);
    assert_eq!(secret_from_seed(u64::MAX), 16);
    for seed in 0u64..1000 {
        let s = secret_from_seed(seed);
        assert!((1..=100).contains(&s));
    }
}
