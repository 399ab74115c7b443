use signer::label::simplify;

#[test]
fn a_reading_that_begins_with_the_label_matches() {
    assert!(signer::label::matches("Datum: 12.05.", "Datum:"));
    assert!(signer::label::matches("DATUM", "Datum:"));
}

#[test]
fn a_long_enough_reading_that_the_label_begins_matches() {
    // The engine reads `ä` as `?` and loses the colon.
    assert!(signer::label::matches(
        "Klient/Bevollm?chtigter/Betreuer",
        "Klient/Bevollmächtigter/Betreuer:"
    ));
    assert!(signer::label::matches("Klient/B", "Klient/Bevollmächtigter/Betreuer:"));
}

#[test]
fn a_short_fragment_of_the_label_does_not_match() {
    // Six characters or fewer could be anything.
    assert!(!signer::label::matches("Klient", "Klient/Bevollmächtigter/Betreuer:"));
    assert!(!signer::label::matches("", "Datum:"));
}

#[test]
fn an_empty_label_matches_nothing() {
    assert!(!signer::label::matches("Datum:", ""));
    assert!(!signer::label::matches("Datum:", ":/-"));
}

#[test]
fn a_different_word_does_not_match() {
    assert!(!signer::label::matches("Unterschrift", "Datum:"));
    assert!(!signer::label::matches("Dat um", "Datum:x"));
}

#[test]
fn simplifying_keeps_ascii_letters_and_digits_in_lower_case() {
    assert_eq!(simplify("Bevollmächtigter: 12/B"), "bevollmchtigter12b".chars().collect::<Vec<_>>());
    assert_eq!(simplify("ÄÖÜ ß -_-"), Vec::<char>::new());
}
