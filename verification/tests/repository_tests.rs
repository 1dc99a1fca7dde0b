use dpg::diceware_info::build_diceware_repository;
use dpg::diceware_info::calculate_max_dice_count;
use dpg::diceware_info::get_diceware_words_by_language;
use dpg::diceware_info::process_diceware_words;
use dpg::diceware_info::read_diceware_list;

#[test]
fn dice_count_is_the_least_that_reaches_every_word() {
    assert_eq!(calculate_max_dice_count(1), 1);
    assert_eq!(calculate_max_dice_count(6), 1);
    assert_eq!(calculate_max_dice_count(7), 2);
    assert_eq!(calculate_max_dice_count(36), 2);
    assert_eq!(calculate_max_dice_count(37), 3);
    assert_eq!(calculate_max_dice_count(216), 3);
    assert_eq!(calculate_max_dice_count(7776), 5);
    assert_eq!(calculate_max_dice_count(7777), 6);
}

#[test]
fn repository_holds_both_languages_with_minimal_dice_counts() {
    let repository = build_diceware_repository();
    assert_eq!(repository.len(), 2);
    assert_eq!(repository[0].language, "en");
    assert_eq!(repository[1].language, "pl");
    for info in &repository {
        let words = info.words.len() as u32;
        let reach = (6 as u32).pow(info.num_dices as u32);
        assert!(words >= 1);
        assert!(info.num_dices >= 1);
        assert!(reach >= words);
        if info.num_dices > 1 {
            assert!((6 as u32).pow(info.num_dices as u32 - 1) < words);
        }
        for word in &info.words {
            assert!(!word.is_empty());
        }
    }
}

#[test]
fn unknown_language_tags_fall_back_to_english_data() {
    let unknown = get_diceware_words_by_language("xx");
    let english = get_diceware_words_by_language("en");
    assert_eq!(unknown, english);
}

#[test]
fn language_tags_are_matched_case_insensitively() {
    let upper = read_diceware_list("PL");
    let lower = read_diceware_list("pl");
    assert_eq!(upper.words, lower.words);
    assert_eq!(upper.num_dices, lower.num_dices);
    assert_eq!(upper.language, "PL");
}

#[test]
fn parser_keeps_the_last_token_of_each_line() {
    let info = process_diceware_words("11111 abandon\n11112 ability\n11113 able", "en");
    assert_eq!(info.language, "en");
    assert_eq!(
        info.words,
        vec!["abandon".to_string(), "ability".to_string(), "able".to_string()]
    );
    assert_eq!(info.num_dices, 1);
}

#[test]
fn parser_accepts_single_column_lines_and_a_final_line_break() {
    let info = process_diceware_words("alpha\nbeta\ngamma\n", "en");
    assert_eq!(
        info.words,
        vec!["alpha".to_string(), "beta".to_string(), "gamma".to_string()]
    );
}

#[test]
fn parser_handles_windows_line_endings_and_tabs() {
    let info = process_diceware_words("11\tfirst\r\n12\tsecond\r\n", "en");
    assert_eq!(info.words, vec!["first".to_string(), "second".to_string()]);
}

#[test]
fn parser_ignores_trailing_blanks_on_a_line() {
    let info = process_diceware_words("21 alpha  \n22 beta\t", "en");
    assert_eq!(info.words, vec!["alpha".to_string(), "beta".to_string()]);
}

#[test]
fn parser_derives_the_dice_count_from_the_word_count() {
    let mut text = String::new();
    for i in 0..37 {
        if i > 0 {
            text.push('\n');
        }
        text.push_str(&format!("line{}", i));
    }
    let info = process_diceware_words(&text, "en");
    assert_eq!(info.words.len(), 37);
    assert_eq!(info.num_dices, 3);
}
