use rustbook::basics::{
    build_user, calculate_length, change, divisibility_note, first_word_demo, no_dangle,
    normal_return_demo, odd_word_below_10, plus_one, IpAddrv4u8, takes_and_gives_back, weird_rust_return_demo, Coin, Rect, UsState,
};
use rustbook::collections::{scores_by_team, word_counts};
use rustbook::generics::{largest, largest_char, largest_i32, Point, VersatilePoint};
use rustbook::guessing::{judge, parse_guess, GuessingGame, Verdict};
use rustbook::iterators::{shoes_in_size, Counter, Shoe};
use rustbook::lifetimes::{longest, ImportantExcerpt};
use rustbook::restaurant;
use rustbook::restaurant::back_of_house::{Appetizer, Breakfast};
use rustbook::traits::{get_test_types, NewsArticle, Pair, Summary, Tweet};

#[test]
fn largest_of_integers_and_chars() {
    let char_vec = vec!['a', 'b', 'd', '!', ';'];
    let i32_vec = vec![1, 2, 45, 36, 253];
    assert_eq!(largest_char(&char_vec), 'd');
    assert_eq!(largest_i32(&i32_vec), 253);
    assert_eq!(largest(&char_vec), 'd');
    assert_eq!(largest(&i32_vec), 253);
}

#[test]
fn largest_of_one_and_of_negatives() {
    assert_eq!(largest_i32(&[-7]), -7);
    assert_eq!(largest_i32(&[-7, -3, -9]), -3);
    assert_eq!(largest(&[3u8, 3, 1]), 3);
}

#[test]
fn points_and_swapped_coordinates() {
    let p = Point { x: 1, y: 3 };
    assert_eq!(*p.x(), 1);
    assert_eq!(p.y, 3);
    let one = VersatilePoint { x: 7u8, y: 'c' };
    let two = VersatilePoint { x: 3i64, y: true };
    let swapped = one.swap_y(&two);
    assert_eq!(swapped.x, 7u8);
    assert!(swapped.y);
}

#[test]
fn summaries_of_article_and_tweet() {
    let (news_article, tweet) = get_test_types();
    assert_eq!(news_article.summarise(), "Big Fish by Hungry Cat (The Pond)");
    assert_eq!(news_article.summarise_author(), "Hungry Cat");
    assert_eq!(tweet.summarise(), format!("BigFish: {}", tweet.content));
    assert_eq!(tweet.summarise_author(), "@BigFish");
    assert!(!tweet.retweet && !tweet.reply);
}

#[test]
fn summaries_of_built_values() {
    let article = NewsArticle {
        headline: "H".to_string(),
        author: "A".to_string(),
        location: "L".to_string(),
        content: String::new(),
    };
    assert_eq!(article.summarise(), "H by A (L)");
    let tweet = Tweet {
        username: "u".to_string(),
        content: "c".to_string(),
        retweet: true,
        reply: false,
    };
    assert_eq!(tweet.summarise(), "u: c");
}

#[test]
fn pair_holds_both() {
    let p = Pair::new(4, 9);
    assert_eq!((p.x, p.y), (4, 9));
}

#[test]
fn longest_by_bytes_second_on_tie() {
    assert_eq!(longest("abcd", "hello"), "hello");
    assert_eq!(longest("hello", "world!"), "world!");
    assert_eq!(longest("abc", "xyz"), "xyz");
    assert_eq!(longest("ééé", "abcde"), "ééé");
}

#[test]
fn excerpt_level() {
    let text = String::from("I am important. I am less important.");
    let excerpt = ImportantExcerpt { part: &text[..14] };
    assert_eq!(excerpt.level(), 3);
    assert_eq!(excerpt.part, "I am important");
}

#[test]
fn returns_and_ownership() {
    assert_eq!(weird_rust_return_demo(5), 6);
    assert_eq!(normal_return_demo(5), 4);
    assert_eq!(takes_and_gives_back("wowow".to_string()), "wowow");
    assert_eq!(calculate_length(&"Hello, World".to_string()), 12);
    assert_eq!(calculate_length(&"ß".to_string()), 2);
    let mut s = String::from("Hello, ");
    change(&mut s);
    assert_eq!(s, "Hello,  world world world");
    assert_eq!(no_dangle(), "Helo");
}

#[test]
fn first_word_of_text() {
    assert_eq!(first_word_demo("Hello, World"), "Hello,");
    assert_eq!(first_word_demo("single"), "single");
    assert_eq!(first_word_demo(" lead"), "");
    assert_eq!(first_word_demo(""), "");
}

#[test]
fn built_user_is_active_once_signed_in() {
    let user = build_user("bob@building.com", "bob");
    assert_eq!(user.email, "bob@building.com");
    assert_eq!(user.username, "bob");
    assert!(user.active);
    assert_eq!(user.sign_in_count, 1);
}

#[test]
fn rect_area_and_holding() {
    let rect1 = Rect::build(3, 5);
    let mut rect2 = Rect::build(4, 7);
    assert_eq!(rect1.area(), 15);
    assert!(rect2.can_hold(&rect1));
    rect2.height = 5;
    assert_eq!(rect2.area(), 20);
    assert!(!rect2.can_hold(&rect1));
    assert!(!rect1.can_hold(&rect2));
}

#[test]
fn coin_values() {
    assert_eq!(Coin::Penny.value_in_cents(), 1);
    assert_eq!(Coin::Nickel.value_in_cents(), 5);
    assert_eq!(Coin::Dime.value_in_cents(), 10);
    assert_eq!(Coin::Quarter.value_in_cents(), 25);
    assert_eq!(Coin::StateQuarter(UsState::Alabama).value_in_cents(), 25);
    assert_eq!(Coin::StateQuarter(UsState::Alaska).value_in_cents(), 25);
}

#[test]
fn plus_one_keeps_none() {
    assert_eq!(plus_one(Some(34)), Some(35));
    assert_eq!(plus_one(None), None);
    assert_eq!(plus_one(Some(-1)), Some(0));
}

#[test]
fn shoes_of_size_five() {
    let shoes = vec![
        Shoe { size: 5, style: "laces".to_string() },
        Shoe { size: 3, style: "sandles".to_string() },
        Shoe { size: 8, style: "high heels".to_string() },
        Shoe { size: 5, style: "slippers".to_string() },
        Shoe { size: 18, style: "clown shoes".to_string() },
    ];
    let fives = shoes_in_size(shoes, 5);
    let styles: Vec<&str> = fives.iter().map(|s| s.style.as_str()).collect();
    assert_eq!(styles, vec!["laces", "slippers"]);
    assert!(fives.iter().all(|s| s.size == 5));
}

#[test]
fn shoes_of_missing_size() {
    let shoes = vec![Shoe { size: 5, style: "laces".to_string() }];
    assert!(shoes_in_size(shoes, 6).is_empty());
    assert!(shoes_in_size(Vec::new(), 6).is_empty());
}

#[test]
fn counter_counts_to_five() {
    let mut c1 = Counter::new();
    assert_eq!(c1.collect_remaining(), vec![1, 2, 3, 4, 5]);
    assert_eq!(c1.next(), None);
    assert!(c1.collect_remaining().is_empty());
}

#[test]
fn counter_step_by_step() {
    let mut c = Counter::new();
    assert_eq!(c.next(), Some(1));
    assert_eq!(c.next(), Some(2));
    assert_eq!(c.collect_remaining(), vec![3, 4, 5]);
}

#[test]
fn restaurant_runs() {
    restaurant::eat_at_restaurant();
    restaurant::order_breakfast();
    restaurant::load_n_diners(3);
    restaurant::load_n_diners(-1);
    restaurant::hosting::seat_at_table();
    restaurant::serving::take_order();
    restaurant::serving::serve_order();
    restaurant::serving::take_payment();
    restaurant::waiter::wait();
    restaurant::get_waitlist();
    let meal = Breakfast::generate_summer_breakfast("Rhy");
    assert_eq!(meal.toast, "Rhy");
    Breakfast::swap_fruit_for_banana(meal);
    let _starters = [Appetizer::Soup, Appetizer::Salad];
}

#[test]
fn parse_guess_reads_like_trim_then_parse() {
    for line in ["42\n", "  7 \r\n", "+15", "0", "4294967295", "\u{3000}9\t"] {
        assert_eq!(parse_guess(line), line.trim().parse::<u32>().ok(), "{:?}", line);
    }
    for line in ["", "\n", "+", "-3", "4294967296", "12a", "1 2", "٣"] {
        assert_eq!(parse_guess(line), None, "{:?}", line);
    }
}

#[test]
fn judge_each_way() {
    assert_eq!(judge(10, 50), Verdict::TooSmall);
    assert_eq!(judge(60, 50), Verdict::TooBig);
    assert_eq!(judge(50, 50), Verdict::Win);
}

#[test]
fn game_responds_to_lines() {
    let game = GuessingGame::with_secret(42);
    assert_eq!(game.respond("abc\n"), Verdict::NotANumber);
    assert_eq!(game.respond("41\n"), Verdict::TooSmall);
    assert_eq!(game.respond("43\n"), Verdict::TooBig);
    assert_eq!(game.respond(" 42 \n"), Verdict::Win);
}

#[test]
fn drawn_secret_is_in_range() {
    for _ in 0..50 {
        let game = GuessingGame::new();
        let mut won = false;
        for guess in 1..=100u32 {
            if game.respond(&guess.to_string()) == Verdict::Win {
                won = true;
                break;
            }
        }
        assert!(won);
        assert_eq!(game.respond("0"), Verdict::TooSmall);
        assert_eq!(game.respond("101"), Verdict::TooBig);
    }
}

#[test]
fn divisibility_notes() {
    assert_eq!(divisibility_note(63), "x is divisible by 3");
    assert_eq!(divisibility_note(8), "x is divisible by 4");
    assert_eq!(divisibility_note(12), "x is divisible by 4");
    assert_eq!(divisibility_note(10), "x is divisible by 2");
    assert_eq!(divisibility_note(7), "Number not divisible!");
    assert_eq!(divisibility_note(0), "x is divisible by 4");
    assert_eq!(divisibility_note(-9), "x is divisible by 3");
}

#[test]
fn odd_words() {
    assert_eq!(odd_word_below_10(1), Some("one!"));
    assert_eq!(odd_word_below_10(2), None);
    assert_eq!(odd_word_below_10(5), Some("five!"));
    assert_eq!(odd_word_below_10(9), Some("nine!"));
    assert_eq!(odd_word_below_10(11), None);
}

#[test]
fn address_texts() {
    assert_eq!(IpAddrv4u8::V4(127, 0, 0, 1).text(), "127.0.0.1");
    assert_eq!(IpAddrv4u8::V4(255, 10, 9, 100).text(), "255.10.9.100");
    assert_eq!(IpAddrv4u8::V6(String::from("::1")).text(), "::1");
}

#[test]
fn first_sentence_of_text() {
    let text = String::from("I am important. I am less important.");
    let excerpt = ImportantExcerpt::first_sentence(&text);
    assert_eq!(excerpt.part, "I am important");
    assert_eq!(ImportantExcerpt::first_sentence("no stop").part, "no stop");
    assert_eq!(ImportantExcerpt::first_sentence(".x").part, "");
}

fn secret_of(game: &GuessingGame) -> u32 {
    (1..=100u32)
        .find(|guess| game.respond(&guess.to_string()) == Verdict::Win)
        .unwrap()
}

#[test]
fn drawn_secrets_vary() {
    let first = secret_of(&GuessingGame::new());
    let differs = (0..200).any(|_| secret_of(&GuessingGame::new()) != first);
    assert!(differs);
}

#[test]
fn word_map_counts_each_word() {
    let counts = word_counts("hello world wonderful world");
    assert_eq!(counts.len(), 3);
    assert_eq!(counts.get("hello"), Some(&1));
    assert_eq!(counts.get("world"), Some(&2));
    assert_eq!(counts.get("wonderful"), Some(&1));
    assert_eq!(counts.get("planet"), None);
}

#[test]
fn word_map_of_blank_text_is_empty() {
    assert!(word_counts("").is_empty());
    assert!(word_counts(" \t\n ").is_empty());
}

#[test]
fn word_map_agrees_with_split_whitespace() {
    let text = "  a b\ta\r\nb  c\u{3000}a ";
    let counts = word_counts(text);
    let words: Vec<&str> = text.split_whitespace().collect();
    assert_eq!(words, vec!["a", "b", "a", "b", "c", "a"]);
    for w in &words {
        let n = words.iter().filter(|x| *x == w).count();
        assert_eq!(counts.get(w), Some(&n));
    }
    assert_eq!(counts.len(), 3);
}

#[test]
fn team_scores_from_two_lists() {
    let teams = vec![String::from("Blue"), String::from("Red")];
    let scores = vec![10, 50];
    let map = scores_by_team(&teams, &scores);
    assert_eq!(map.len(), 2);
    assert_eq!(map.get("Blue"), Some(&10));
    assert_eq!(map.get("Red"), Some(&50));
    assert_eq!(map.get("Yellow"), None);
}

#[test]
fn team_scores_stop_at_shorter_list_and_keep_last() {
    let teams = vec![String::from("Blue"), String::from("Blue"), String::from("Red")];
    let scores = vec![10, 25];
    let map = scores_by_team(&teams, &scores);
    assert_eq!(map.len(), 1);
    assert_eq!(map.get("Blue"), Some(&25));
    assert_eq!(map.get("Red"), None);
    assert!(scores_by_team(&Vec::new(), &scores).is_empty());
}
