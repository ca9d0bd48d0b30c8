use exercises::accounts::add_user;
use exercises::accounts::check_login;
use exercises::accounts::load_users;
use exercises::accounts::parse_users;
use exercises::accounts::users_json_text;
use exercises::colorize::extract;
use exercises::colorize::Blink;
use exercises::colorize::Bold;
use exercises::colorize::Colorize;
use exercises::colorize::Italic;
use exercises::fizzbuzz::fizzbuzz_label;
use exercises::fizzbuzz::fizzbuzz_lines;
use exercises::greeting::goodbye_line;
use exercises::greeting::hello_line;
use exercises::highlow::play_again_choice;
use exercises::highlow::verdict_text;
use exercises::highlow::HighLowGame;
use exercises::highlow::Verdict;
use exercises::password::charset;
use exercises::password::generate_password;
use exercises::vectors::filter_non_red_colors;
use exercises::vectors::get_all_but_first;
use exercises::vectors::squares;
use exercises::vectors::Color;

#[test]
fn extract_splits_channels() {
    assert_eq!(extract(0xD6483B), (0xD6, 0x48, 0x3B));
    assert_eq!(extract(0x000000), (0, 0, 0));
    assert_eq!(extract(0xFFFFFF), (255, 255, 255));
}

#[test]
fn styles_wrap_in_escape_codes() {
    let text = String::from("hello");
    assert_eq!(text.bold(), "\x1b[1mhello\x1b[0m");
    assert_eq!(text.italic(), "\x1b[3mhello\x1b[0m");
    assert_eq!(text.blink(true), "\x1b[6mhello\x1b[0m");
    assert_eq!(text.blink(false), "\x1b[5mhello\x1b[0m");
}

#[test]
fn colors_render_decimal_channels() {
    let text = String::from("x");
    assert_eq!(text.background(0xD6483B), "\x1b[48;2;214;72;59mx\x1b[0m");
    assert_eq!(text.foreground(0x161616), "\x1b[38;2;22;22;22mx\x1b[0m");
    assert_eq!(text.foreground(0x000007), "\x1b[38;2;0;0;7mx\x1b[0m");
}

#[test]
fn filter_keeps_only_red() {
    let out = filter_non_red_colors(vec![Color::Red, Color::Green, Color::Blue, Color::Red]);
    assert_eq!(out.len(), 2);
    assert!(matches!(out[0], Color::Red));
    assert!(matches!(out[1], Color::Red));
}

#[test]
fn squares_each_element() {
    assert_eq!(squares(&vec![1, 2, 3, 4]), vec![1, 4, 9, 16]);
    assert_eq!(squares(&vec![-3]), vec![9]);
}

#[test]
fn all_but_first_drops_exactly_one() {
    assert_eq!(get_all_but_first(&vec![-1, 0, 1]), vec![0, 1]);
    assert_eq!(get_all_but_first(&vec![5]), Vec::<i32>::new());
}

#[test]
fn fizzbuzz_says_the_right_words() {
    assert_eq!(fizzbuzz_label(1), "1");
    assert_eq!(fizzbuzz_label(3), "fizz");
    assert_eq!(fizzbuzz_label(5), "buzz");
    assert_eq!(fizzbuzz_label(15), "fizzbuzz");
    assert_eq!(fizzbuzz_label(98), "98");
    let lines = fizzbuzz_lines(100);
    assert_eq!(lines.len(), 100);
    assert_eq!(lines[0], "1");
    assert_eq!(lines[89], "fizzbuzz");
    assert_eq!(lines[99], "buzz");
}

#[test]
fn login_accepts_the_stored_password_only() {
    let mut users = Vec::new();
    assert!(add_user(&mut users, String::from("bob"), String::from("abc")));
    assert!(check_login(&users, "bob", "abc"));
    assert!(!check_login(&users, "bob", "abd"));
    assert!(!check_login(&users, "alice", "abc"));
}

#[test]
fn passwords_are_stored_as_sha512_hex() {
    let mut users = Vec::new();
    assert!(add_user(&mut users, String::from("bob"), String::from("abc")));
    // the well-known SHA-512 digest of "abc"
    assert_eq!(
        users[0].hash,
        "DDAF35A193617ABACC417349AE20413112E6FA4E89A97EA20A9EEEE64B55D39A\
         2192992A274FC1A836BA3C23A3FEEBBD454D4423643CE80E2A9AC94FA54CA49F"
    );
    assert_ne!(users[0].hash, "abc");
}

#[test]
fn duplicate_usernames_are_refused() {
    let mut users = Vec::new();
    assert!(add_user(&mut users, String::from("bob"), String::from("a")));
    assert!(!add_user(&mut users, String::from("bob"), String::from("b")));
    assert_eq!(users.len(), 1);
}

#[test]
fn user_db_round_trips_through_json() {
    let mut users = Vec::new();
    assert!(add_user(&mut users, String::from("bob"), String::from("pw")));
    let text = users_json_text(&users);
    let back = load_users(&text).unwrap();
    assert_eq!(back.len(), 1);
    assert_eq!(back[0].username, users[0].username);
    assert_eq!(back[0].hash, users[0].hash);
}

#[test]
fn bad_user_dbs_are_rejected() {
    assert!(load_users("not json at all {").is_none());
    assert!(load_users("{\"username\":\"bob\"}").is_none());
    let not_an_array = json::parse("42").unwrap();
    assert!(parse_users(&not_an_array).is_none());
}

#[test]
fn verdicts_compare_guess_and_goal() {
    let game = HighLowGame { goal: 50 };
    assert_eq!(game.evaluate(60), Verdict::TooHigh);
    assert_eq!(game.evaluate(40), Verdict::TooLow);
    assert_eq!(game.evaluate(50), Verdict::Correct);
    assert_eq!(verdict_text(Verdict::TooHigh), "too high");
    assert_eq!(verdict_text(Verdict::TooLow), "too low");
    assert_eq!(verdict_text(Verdict::Correct), "you win!");
}

#[test]
fn fresh_games_stay_in_range() {
    for _ in 0..50 {
        let game = HighLowGame::new();
        assert!(0 <= game.goal && game.goal <= 100);
    }
}

#[test]
fn play_again_reads_the_first_character() {
    assert_eq!(play_again_choice(None), Some(true));
    assert_eq!(play_again_choice(Some('y')), Some(true));
    assert_eq!(play_again_choice(Some('Y')), Some(true));
    assert_eq!(play_again_choice(Some('n')), Some(false));
    assert_eq!(play_again_choice(Some('N')), Some(false));
    assert_eq!(play_again_choice(Some('x')), None);
}

#[test]
fn generated_passwords_use_the_charset() {
    let p = generate_password(32);
    assert_eq!(p.chars().count(), 32);
    let cs: Vec<char> = charset().chars().collect();
    assert_eq!(cs.len(), 94);
    for c in p.chars() {
        assert!(cs.contains(&c));
    }
    assert_eq!(generate_password(0), "");
}

#[test]
fn runner_lines_carry_the_number() {
    assert_eq!(hello_line(3), "[3] Hello world!");
    assert_eq!(goodbye_line(10), "[10] Goodbye world!");
    assert_eq!(hello_line(-2), "[-2] Hello world!");
}
