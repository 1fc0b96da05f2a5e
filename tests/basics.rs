use hello::art::{add_one, mix, PrimaryColor, SecondaryColor};
use hello::basics::{fibonacci, five, plus_one};
use hello::coins::{self, value_in_cents, value_in_cents2, Coin, Coin2, UsState};
use hello::generics::{largest_char, largest_i32, Pair, Point, Point3};
use hello::guess::Guess;
use hello::lifetimes::{longest, longest1, ImportantExcept};
use hello::rectangles::{area, area_in_struct, area_in_tuple, Rectangle};
use hello::users::build_user;

#[test]
fn fibonacci_values() {
    let expected: [u128; 10] = [1, 1, 1, 2, 3, 5, 8, 13, 21, 34];
    for (n, want) in expected.iter().enumerate() {
        assert_eq!(fibonacci(n as u128), *want);
    }
    assert_eq!(fibonacci(50), 12586269025);
    assert_eq!(fibonacci(186), 332825110087067562321196029789634457848);
}

#[test]
fn five_and_plus_one() {
    assert_eq!(plus_one(five()), 6);
    assert_eq!(plus_one(-1), 0);
}

#[test]
fn rectangle_geometry() {
    let rect1 = Rectangle {
        width: 30,
        height: 50,
    };
    assert_eq!(rect1.area(), 1500);
    assert_eq!(area(30, 50), 1500);
    assert_eq!(area_in_tuple((30, 50)), 1500);
    assert_eq!(area_in_struct(&rect1), 1500);
    let rect2 = Rectangle {
        width: 10,
        height: 40,
    };
    let rect3 = Rectangle {
        width: 60,
        height: 45,
    };
    assert!(rect1.can_hold(&rect2));
    assert!(!rect1.can_hold(&rect3));
    let sq = Rectangle::square(3);
    assert!(sq.is_square());
    assert_eq!(sq.area(), 9);
    assert!(!rect1.is_square());
}

#[test]
fn new_user_is_active() {
    let u = build_user(String::from("someone@example.com"), String::from("someone"));
    assert_eq!(u.email, "someone@example.com");
    assert_eq!(u.username, "someone");
    assert!(u.active);
    assert_eq!(u.sign_in_count, 1);
}

#[test]
fn coin_values() {
    assert_eq!(value_in_cents(Coin::Penny), 1);
    assert_eq!(value_in_cents(Coin::Nickel), 5);
    assert_eq!(value_in_cents(Coin::Dime), 10);
    assert_eq!(value_in_cents(Coin::Quarter), 25);
    assert_eq!(value_in_cents2(Coin2::Quarter(UsState::Alaska)), 25);
    assert_eq!(value_in_cents2(Coin2::Dime), 10);
    assert_eq!(coins::plus_one(Some(5)), Some(6));
    assert_eq!(coins::plus_one(None), None);
}

#[test]
fn largest_elements() {
    assert_eq!(largest_i32(&[34, 50, 25, 100, 65]), 100);
    assert_eq!(largest_i32(&[-3]), -3);
    assert_eq!(largest_char(&['y', 'm', 'a', 'q']), 'y');
}

#[test]
fn generic_points() {
    let p = Point { x: 5, y: 10 };
    assert_eq!(*p.x(), 5);
    let first = Point3 { x: 5, y: 10.4 };
    let second = Point3 { x: "Hello", y: 'c' };
    let mixed = first.mix_up(second);
    assert_eq!(mixed.x, 5);
    assert_eq!(mixed.y, 'c');
    let pair = Pair::new(1, 2);
    assert_eq!((pair.x, pair.y), (1, 2));
}

#[test]
fn longest_by_bytes() {
    assert_eq!(longest("abcd", "xyz"), "abcd");
    assert_eq!(longest("ab", "xyz"), "xyz");
    assert_eq!(longest("abc", "xyz"), "xyz");
    assert_eq!(longest("éé", "abc"), "éé");
    assert_eq!(longest1("a", "longer"), "a");
}

#[test]
fn excerpt_returns_its_part() {
    let novel = String::from("Call me Ishmael. Some years ago...");
    let first_sentence = novel.split('.').next().unwrap();
    let i = ImportantExcept {
        part: first_sentence,
    };
    assert_eq!(i.level(), 3);
    assert_eq!(i.announce_and_return_part("news"), "Call me Ishmael");
}

#[test]
fn guess_keeps_value() {
    assert_eq!(Guess::new(1).value(), 1);
    assert_eq!(Guess::new(100).value(), 100);
    assert_eq!(Guess::new(42).value(), 42);
}

#[test]
fn colors_and_add_one() {
    assert_eq!(mix(PrimaryColor::Red, PrimaryColor::Yellow), SecondaryColor::Green);
    assert_eq!(add_one(5), 6);
}
