use dpg::diceware_info::DicewareInfo;
use dpg::option_parser::Options;
use dpg::passwords::generate_all_passwords;
use dpg::passwords::generate_single_password;
use dpg::passwords::get_diceware_info_by_language;
use dpg::passwords::get_random_word;

fn build_fake_diceware_repository() -> Vec<DicewareInfo> {
    vec![
        DicewareInfo {
            language: "pl".to_string(),
            num_dices: 1,
            words: vec![
                "pl-1".to_string(),
                "pl-2".to_string(),
                "pl-3".to_string(),
                "pl-4".to_string(),
                "pl-5".to_string(),
                "pl-6".to_string(),
            ],
        },
        DicewareInfo {
            language: "en".to_string(),
            num_dices: 1,
            words: vec![
                "en-1".to_string(),
                "en-2".to_string(),
                "en-3".to_string(),
                "en-4".to_string(),
                "en-5".to_string(),
                "en-6".to_string(),
            ],
        },
    ]
}

#[test]
fn proper_diceware_info_should_be_returned() {
    let diceware_repository = build_fake_diceware_repository();
    let expected_polish = "pl";
    let expected_english = "en";

    let di_en = get_diceware_info_by_language(expected_english, &diceware_repository);
    let di_pl = get_diceware_info_by_language(expected_polish, &diceware_repository);
    assert_eq!(di_en.language, expected_english);
    assert_eq!(di_pl.language, expected_polish);
}

#[test]
fn return_english_diceware_info_by_default() {
    let diceware_repository = build_fake_diceware_repository();
    let invalid_language = "xk";

    let di = get_diceware_info_by_language(invalid_language, &diceware_repository);
    assert_eq!(di.language, "en");
}

#[test]
fn generate_single_word_should_return_one_word_in_specified_language() {
    let diceware_repository = build_fake_diceware_repository();

    let word = get_random_word("pl", &diceware_repository, false);
    assert!(word.len() > 0);
    assert!(word.starts_with("pl"));
}

#[test]
fn generate_single_password_should_return_password_consisting_of_specified_number_of_words() {
    let diceware_repository = build_fake_diceware_repository();

    let options = Options {
        language: "pl".to_string(),
        clipboard: false,
        help: false,
        password_count: 1,
        password_length: 2,
        separator: " ".to_string(),
        simulate_dices: false,
    };
    let password = generate_single_password(&options, &diceware_repository);
    let words_count = password.split_whitespace().count();
    assert_eq!(words_count, options.password_length);
}

#[test]
fn dash_is_used_as_default_separator() {
    let diceware_repository = build_fake_diceware_repository();

    let password_length: usize = 4;
    let options = Options {
        language: "pl".to_string(),
        clipboard: false,
        help: false,
        password_count: 1,
        password_length,
        separator: "".to_string(),
        simulate_dices: false,
    };

    let password = generate_single_password(&options, &diceware_repository);
    assert!(password.contains("-"));
}

#[test]
fn specified_separator_should_be_used() {
    let diceware_repository = build_fake_diceware_repository();

    let password_length: usize = 4;
    let separator = "*".to_string();
    let options = Options {
        language: "pl".to_string(),
        clipboard: false,
        help: false,
        password_count: 1,
        password_length,
        separator,
        simulate_dices: false,
    };

    let password = generate_single_password(&options, &diceware_repository);
    assert!(password.contains(&options.separator));
}

#[test]
fn dpg_should_generate_specified_number_of_passwords_at_once() {
    let diceware_repository = build_fake_diceware_repository();
    let expected_passwords_count: usize = 5;
    let options = Options {
        language: "pl".to_string(),
        clipboard: false,
        help: false,
        password_count: expected_passwords_count,
        password_length: 1,
        separator: "".to_string(),
        simulate_dices: false,
    };

    let password = generate_all_passwords(&options, diceware_repository);
    let passwords_count = password.lines().count();
    assert_eq!(passwords_count, expected_passwords_count);
}

#[test]
fn simulated_dice_draws_also_pick_words_from_the_list() {
    let diceware_repository = build_fake_diceware_repository();
    for _i in 0..200 {
        let word = get_random_word("pl", &diceware_repository, true);
        assert!(word.starts_with("pl-"));
    }
}
