use hello::advanced::outline;
use hello::closures::{generate_workout, Cacher, Workout};
use hello::collections::{number_exercise, string_to_pig_latin};
use hello::generics::{largest, largest3, Pair};
use std::cell::Cell;

#[test]
fn statistics_of_numbers() {
    let numbers = vec![25, 1, 7, 5, 7, 6, 7, 4, 1, 3];
    assert_eq!(number_exercise(&numbers), (6, 5, 7));
    assert_eq!(number_exercise(&vec![]), (0, 0, 0));
    assert_eq!(number_exercise(&vec![9]), (9, 9, 9));
    let (mean, median, _) = number_exercise(&vec![3, 1, 2]);
    assert_eq!((mean, median), (2, 2));
}

#[test]
fn statistics_without_overflow() {
    let big = vec![u32::MAX, u32::MAX];
    assert_eq!(number_exercise(&big), (u32::MAX, u32::MAX, u32::MAX));
    let ties = vec![4, 4, 2, 2];
    let (mean, median, mode) = number_exercise(&ties);
    assert_eq!((mean, median), (3, 3));
    assert!(mode == 4 || mode == 2);
}

#[test]
fn pig_latin_words() {
    assert_eq!(string_to_pig_latin(&String::from("first")), "irst-f-ay");
    assert_eq!(string_to_pig_latin(&String::from("apple")), "apple-hay");
    assert_eq!(string_to_pig_latin(&String::from("")), "");
    assert_eq!(string_to_pig_latin(&String::from("Apple")), "pple-A-ay");
    assert_eq!(string_to_pig_latin(&String::from("ñu")), "u-ñ-ay");
}

#[test]
fn cacher_computes_once_per_argument() {
    let calls = Cell::new(0);
    let mut c = Cacher::new(|n: u32| {
        calls.set(calls.get() + 1);
        n * 2
    });
    assert_eq!(c.value(2), 4);
    assert_eq!(c.value(2), 4);
    assert_eq!(calls.get(), 1);
    assert_eq!(c.value(5), 10);
    assert_eq!(calls.get(), 2);
}

#[test]
fn workout_plans() {
    let calls = Cell::new(0);
    let calc = |n: u32| {
        calls.set(calls.get() + 1);
        n
    };
    assert_eq!(
        generate_workout(10, 7, &calc),
        Workout::Exercises {
            pushups: 10,
            situps: 10
        }
    );
    assert_eq!(calls.get(), 1);
    assert_eq!(generate_workout(30, 3, &calc), Workout::Rest);
    assert_eq!(generate_workout(30, 4, &calc), Workout::Run { minutes: 30 });
}

#[test]
fn outline_frames_text() {
    assert_eq!(
        outline("(1, 3)"),
        vec![
            "**********",
            "*        *",
            "* (1, 3) *",
            "*        *",
            "**********"
        ]
    );
    assert_eq!(outline(""), vec!["****", "*  *", "*  *", "*  *", "****"]);
}

#[test]
fn generic_largest() {
    assert_eq!(largest(&[34, 50, 25, 100, 65]), 100);
    assert_eq!(largest(&['y', 'm', 'a', 'q']), 'y');
    assert_eq!(*largest3(&[String::from("b"), String::from("c"), String::from("a")]), "c");
    assert_eq!(Pair::new(3, 7).larger_member(), &7);
    assert_eq!(Pair::new(7, 7).larger_member(), &7);
    assert_eq!(Pair::new("b", "a").larger_member(), &"b");
}
