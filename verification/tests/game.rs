use letter_shop::game::Game;
use letter_shop::game::PlayerInput;
use letter_shop::game::continues;
use letter_shop::game::normalize_input;
use letter_shop::game::render_masked;
use letter_shop::game::validate_input;
use letter_shop::text::render_u32;

#[test]
fn masking_shows_bought_letters_and_sentinel() {
    let bought: Vec<char> = vec!['A', 'C'];
    assert_eq!(render_masked("CAB-RAT", &bought), "C A _  - _ A _ ");
}

#[test]
fn masking_of_empty_word_is_empty() {
    let bought: Vec<char> = vec!['A'];
    assert_eq!(render_masked("", &bought), "");
}

#[test]
fn display_word_masks_everything_on_a_fresh_game() {
    let mut game = Game::new();
    game.set_word(String::from("CAB"));
    assert_eq!(game.display_word(), "_ _ _ ");
}

#[test]
fn quit_recognition_is_case_insensitive() {
    assert!(matches!(validate_input("qq"), Some(PlayerInput::Quit)));
    assert!(matches!(validate_input("Qq"), Some(PlayerInput::Quit)));
    assert!(matches!(validate_input("qQ"), Some(PlayerInput::Quit)));
    assert!(matches!(validate_input("QQ"), Some(PlayerInput::Quit)));
}

#[test]
fn single_letters_are_accepted_and_uppercased() {
    assert!(matches!(validate_input("b"), Some(PlayerInput::Letter('B'))));
    assert!(matches!(validate_input("B"), Some(PlayerInput::Letter('B'))));
    assert!(matches!(validate_input("z"), Some(PlayerInput::Letter('Z'))));
    assert!(matches!(validate_input("A"), Some(PlayerInput::Letter('A'))));
}

#[test]
fn invalid_inputs_are_rejected() {
    assert!(matches!(validate_input(""), None));
    assert!(matches!(validate_input("AB"), None));
    assert!(matches!(validate_input("qqq"), None));
    assert!(matches!(validate_input("1"), None));
    assert!(matches!(validate_input("!"), None));
    assert!(matches!(validate_input("\u{100}"), None));
}

#[test]
fn normalization_uppercases_ascii_only() {
    assert_eq!(normalize_input("hello-World!"), "HELLO-WORLD!");
    assert_eq!(normalize_input(""), "");
    assert_eq!(normalize_input("qq"), "QQ");
}

#[test]
fn fresh_game_screen_is_rendered_exactly() {
    let mut game = Game::new();
    game.set_word(String::from("AB"));
    let expected = format!(
        "{esc}[2J{esc}[1;1H\
         Words found   : 0\n\
         Currency      : 4 / 20 (Win the game by getting 20 or more)\n\
         \n\
         Word to find  : _ _ \n\
         Word to find  : AB\n\
         \n\
         Bought        : []\n\
         Available     : [ A ; B ; C ; D ; E ; F ; G ; H ; I ; J ; K ; L ; M ; N ; O ; P ; \
         Q ; R ; S ; T ; U ; V ; W ; X ; Y ; Z ]\n",
        esc = 27 as char
    );
    assert_eq!(game.display_game(), expected);
}

#[test]
fn counters_render_in_decimal() {
    assert_eq!(render_u32(0), "0");
    assert_eq!(render_u32(7), "7");
    assert_eq!(render_u32(20), "20");
    assert_eq!(render_u32(1234), "1234");
}

#[test]
fn the_run_continues_on_letters_and_stops_on_quit() {
    assert_eq!(continues(&PlayerInput::Quit), false);
    assert_eq!(continues(&PlayerInput::Letter('A')), true);
}

#[test]
fn set_word_replaces_the_word() {
    let mut game = Game::new();
    game.set_word(String::from("CAR"));
    assert_eq!(game.display_word(), "_ _ _ ");
    game.set_word(String::from("HI"));
    assert_eq!(game.display_word(), "_ _ ");
}
