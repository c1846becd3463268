use hangman::difficulty::{Difficulty, Rgba};
use hangman::figure::{figure_steps, BodyPart};
use hangman::game::{Hangman, ScreenType, MAX_WRONG};
use hangman::words::{check_word, choose_word, contains_char, lower_char, lower_vec};

fn cv(s: &str) -> Vec<char> {
    s.chars().collect()
}

#[test]
fn difficulty_from_string_and_back() {
    assert_eq!(Difficulty::from_string("easy"), Difficulty::Easy);
    assert_eq!(Difficulty::from_string("medium"), Difficulty::Medium);
    assert_eq!(Difficulty::from_string("hard"), Difficulty::Hard);
    assert_eq!(Difficulty::Easy.as_str(), "easy");
    assert_eq!(Difficulty::Medium.as_str(), "medium");
    assert_eq!(Difficulty::Hard.as_str(), "hard");
}

#[test]
fn difficulty_colors() {
    assert_eq!(Difficulty::Easy.as_color(), Rgba { r: 123, g: 119, b: 86, a: 255 });
    assert_eq!(Difficulty::Medium.as_color(), Rgba { r: 156, g: 119, b: 86, a: 255 });
    assert_eq!(Difficulty::Hard.as_color(), Rgba { r: 156, g: 85, b: 86, a: 255 });
}

#[test]
fn lowercasing() {
    assert_eq!(lower_char('A'), 'a');
    assert_eq!(lower_char('Z'), 'z');
    assert_eq!(lower_char('x'), 'x');
    assert_eq!(lower_char('-'), '-');
    assert_eq!(lower_vec(&cv("CaT")), cv("cat"));
    assert_eq!(lower_vec(&cv("")), cv(""));
}

#[test]
fn word_validity() {
    assert!(check_word(&cv("cat")));
    assert!(!check_word(&cv("")));
    assert!(!check_word(&cv("caT")));
    assert!(!check_word(&cv("c t")));
    assert!(!check_word(&cv("cat!")));
}

#[test]
fn contains_char_finds_only_present_chars() {
    let v = cv("dog");
    assert!(contains_char(&v, 'd'));
    assert!(contains_char(&v, 'g'));
    assert!(!contains_char(&v, 'a'));
    assert!(!contains_char(&cv(""), 'a'));
}

#[test]
fn choose_word_returns_a_list_entry() {
    let list = vec![cv("cat"), cv("dog"), cv("hen")];
    let w = choose_word(&list).unwrap();
    assert!(list.contains(&w));
}

#[test]
fn choose_word_single_entry_lowercased() {
    let list = vec![cv("CAT")];
    assert_eq!(choose_word(&list), Some(cv("cat")));
}

#[test]
fn choose_word_rejects_garbage() {
    let list = vec![cv("two words")];
    assert_eq!(choose_word(&list), None);
}

#[test]
fn figure_steps_truncate_the_fixed_order() {
    assert_eq!(figure_steps(0), Vec::<BodyPart>::new());
    assert_eq!(figure_steps(3), vec![BodyPart::Head, BodyPart::Body, BodyPart::LeftArm]);
    let all = figure_steps(12);
    assert_eq!(all.len(), 9);
    assert_eq!(
        all,
        vec![
            BodyPart::Head,
            BodyPart::Body,
            BodyPart::LeftArm,
            BodyPart::RightArm,
            BodyPart::LeftLeg,
            BodyPart::RightLeg,
            BodyPart::LeftEye,
            BodyPart::RightEye,
            BodyPart::Mouth,
        ]
    );
    assert_eq!(figure_steps(6), all[..6].to_vec());
}

#[test]
fn new_game_is_fresh() {
    let h = Hangman::new();
    assert_eq!(h.screen_type(), ScreenType::Start);
    assert_eq!(h.num_wrong(), 0);
    for c in 'a'..='z' {
        assert!(h.is_remaining(c));
    }
    assert!(!h.is_remaining('A'));
    assert!(!h.is_remaining('1'));
    assert_eq!(h.masked_word(), Vec::<char>::new());
}

#[test]
fn masked_word_reveals_every_occurrence() {
    let mut h = Hangman::new();
    h.begin_round(cv("noon"));
    assert_eq!(h.masked_word(), cv("____"));
    h.guess_letter('n');
    assert_eq!(h.masked_word(), cv("n__n"));
    h.guess_letter('o');
    assert_eq!(h.masked_word(), cv("noon"));
    assert_eq!(h.screen_type(), ScreenType::End);
    assert!(h.did_win());
}

#[test]
fn max_wrong_is_six() {
    assert_eq!(MAX_WRONG, 6);
}
