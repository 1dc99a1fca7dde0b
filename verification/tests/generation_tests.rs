use dpg::diceware_info::build_diceware_repository;
use dpg::generate_diceware_passwords;
use dpg::option_parser::Options;
use dpg::option_parser::validate_options;
use dpg::passwords::PasswordsIterator;
use dpg::passwords::generate_diceware_passwords_simple;
use dpg::passwords::get_diceware_info_by_language;

#[test]
fn a_passphrase_has_exactly_the_requested_number_of_words() {
    let passphrase = generate_diceware_passwords_simple("en", 4, 1, "-", false);
    assert_eq!(passphrase.split('-').count(), 4);
}

#[test]
fn the_requested_number_of_passphrases_comes_back_newline_separated() {
    let passphrases = generate_diceware_passwords_simple("en", 2, 7, "-", false);
    assert_eq!(passphrases.lines().count(), 7);
}

#[test]
fn an_unknown_tag_yields_the_same_wordlist_as_the_default_tag() {
    let repository = build_diceware_repository();
    let unknown = get_diceware_info_by_language("xx", &repository);
    let default = get_diceware_info_by_language("en", &repository);
    assert_eq!(unknown.words, default.words);
    assert_eq!(unknown.num_dices, default.num_dices);
}

#[test]
fn a_star_separator_appears_exactly_between_the_words() {
    let passphrase = generate_diceware_passwords_simple("en", 4, 1, "*", false);
    assert_eq!(passphrase.matches('*').count(), 3);
    for word in passphrase.split('*') {
        assert!(!word.is_empty());
    }
}

#[test]
fn a_polish_passphrase_is_four_nonempty_polish_words_joined_by_dashes() {
    let repository = build_diceware_repository();
    let polish = get_diceware_info_by_language("pl", &repository);
    let passphrase = generate_diceware_passwords_simple("pl", 4, 1, "-", false);
    assert_eq!(passphrase.lines().count(), 1);
    assert!(!passphrase.starts_with('-'));
    assert!(!passphrase.ends_with('-'));
    let words: Vec<&str> = passphrase.split('-').collect();
    assert_eq!(words.len(), 4);
    for word in words {
        assert!(!word.is_empty());
        assert!(polish.words.iter().any(|w| w == word));
    }
}

#[test]
fn the_top_level_call_builds_its_own_repository() {
    let options = Options {
        language: "en".to_string(),
        separator: "-".to_string(),
        password_length: 6,
        password_count: 3,
        clipboard: false,
        help: false,
        simulate_dices: false,
    };
    let passwords = generate_diceware_passwords(options);
    assert!(passwords.len() > 0);
    assert_eq!(passwords.lines().count(), 3);
    for line in passwords.lines() {
        assert_eq!(line.split('-').count(), 6);
    }
}

#[test]
fn dice_simulation_is_selectable_per_configuration() {
    let passphrase = generate_diceware_passwords_simple("pl", 5, 1, ".", true);
    assert_eq!(passphrase.split('.').count(), 5);
}

#[test]
fn the_passwords_iterator_yields_passphrase_after_passphrase() {
    let generator = PasswordsIterator::new("en", "-", 3, false);
    for _i in 0..10 {
        let passphrase = generator.next_password();
        assert_eq!(passphrase.split('-').count(), 3);
    }
}

#[test]
fn options_within_bounds_validate_and_out_of_range_ones_do_not() {
    let mut options = Options {
        language: "en".to_string(),
        separator: "-".to_string(),
        password_length: 5,
        password_count: 1,
        clipboard: false,
        help: false,
        simulate_dices: false,
    };
    assert!(validate_options(&options));
    options.password_length = 0;
    assert!(!validate_options(&options));
    options.password_length = 256;
    assert!(!validate_options(&options));
    options.password_length = 255;
    assert!(validate_options(&options));
    options.password_count = 0;
    assert!(!validate_options(&options));
    options.password_count = 256;
    assert!(!validate_options(&options));
    options.password_count = 255;
    assert!(validate_options(&options));
    options.language = "xx".to_string();
    assert!(!validate_options(&options));
    options.language = "pl".to_string();
    assert!(validate_options(&options));
}
