use hello::advanced::{
    do_twice, foo, parse_context, Animal, Context, Counter, Dog, Meters, Millimeters, MyIterator,
    Parser, Point, Wrapper,
};
use hello::aggregator::{return_summarizable, NewArticle, Summary, Tweet};
use hello::blog::MyPost;
use hello::gui::{Draw, Screen};
use hello::guessing_game::{judge, parse_decimal, parse_guess, Game, Verdict};
use hello::post::{Post, PostState};
use hello::restaurant::{Appetizer, Vegetable};
use hello::smart_pointers::MyBox;
use std::cell::RefCell;
use std::rc::Rc;

#[test]
fn summaries() {
    let article = NewArticle {
        headline: String::from("Penguins win the Stanley Cup Championship!"),
        location: String::from("Pittsburgh, PA, USA"),
        author: String::from("Iceburgh"),
        content: String::from("The Pittsburgh Penguins once again are the best hockey team in the NHL."),
    };
    assert_eq!(
        article.summarize(),
        "Penguins win the Stanley Cup Championship!, by Iceburgh (Pittsburgh, PA, USA)"
    );
    assert_eq!(article.summarize_author(), "@Iceburgh");
    let tweet = Tweet {
        username: String::from("horse_ebooks"),
        content: String::from("of course"),
        reply: false,
        retweet: false,
    };
    assert_eq!(tweet.summarize(), "(Read more from @horse_ebooks...)");
    assert_eq!(tweet.read_more(), "Read more...");
    assert_eq!(return_summarizable().summarize_author(), "@horse_ebooks");
}

#[test]
fn staged_post_publishes_its_text() {
    let mut post = MyPost::new();
    post.add_text("I ate a salad for lunch today");
    let post = post.request_review();
    let post = post.approve();
    assert_eq!("I ate a salad for lunch today", post.content());
}

#[test]
fn post_needs_two_approvals() {
    let mut post = Post::new();
    post.add_text("I ate a salad for lunch today");
    assert_eq!("", post.content());
    post.request_review();
    assert_eq!("", post.content());
    post.add_text(" and more");
    post.approve();
    assert_eq!("", post.content());
    post.approve();
    assert_eq!("I ate a salad for lunch today", post.content());
}

#[test]
fn rejected_post_returns_to_draft() {
    let mut post = Post::new();
    post.add_text("a");
    post.approve();
    assert_eq!("", post.content());
    post.request_review();
    post.approve();
    post.reject();
    post.add_text("b");
    post.request_review();
    post.approve();
    post.approve();
    assert_eq!("ab", post.content());
    post.reject();
    assert_eq!("ab", post.content());
}

#[test]
fn post_state_steps() {
    assert_eq!(
        PostState::Draft.request_review(),
        PostState::PendingReview { approvals: 0 }
    );
    assert_eq!(
        PostState::PendingReview { approvals: 0 }.approve(),
        PostState::PendingReview { approvals: 1 }
    );
    assert_eq!(
        PostState::PendingReview { approvals: 1 }.approve(),
        PostState::Published
    );
    assert_eq!(PostState::Draft.approve(), PostState::Draft);
    assert_eq!(PostState::Published.reject(), PostState::Published);
    assert_eq!(
        PostState::PendingReview { approvals: 1 }.reject(),
        PostState::Draft
    );
}

#[test]
fn my_box_derefs() {
    let y = MyBox::new(5);
    assert_eq!(5, *y);
    let m = MyBox::new(String::from("Rust"));
    let s: &str = &m;
    assert_eq!(s, "Rust");
}

#[test]
fn counter_counts_to_five() {
    let mut counter = Counter::new();
    let mut seen = Vec::new();
    while let Some(v) = counter.next() {
        seen.push(v);
    }
    assert_eq!(seen, vec![1, 2, 3, 4, 5]);
    assert_eq!(counter.next(), None);
}

#[test]
fn baby_names() {
    assert_eq!(Dog::baby_name(), "Spot");
    assert_eq!(<Dog as Animal>::baby_name(), "puppy");
}

#[test]
fn do_twice_adds_two_calls() {
    assert_eq!(do_twice(hello::art::add_one, 5), 12);
    assert_eq!(do_twice(|x| x * 3, -2), -12);
}

#[test]
fn wrapper_lists_entries() {
    let w = Wrapper(vec![String::from("hello"), String::from("world")]);
    assert_eq!(w.to_string(), "[hello, world]");
    assert_eq!(Wrapper(vec![]).to_string(), "[]");
    assert_eq!(Wrapper(vec![String::from("one")]).to_string(), "[one]");
}

#[test]
fn parser_fails_with_the_rest() {
    let c = Context("something");
    assert_eq!(Parser { context: &c }.parse(), Err("omething"));
    assert_eq!(parse_context(Context("x")), Err(""));
    assert_eq!(foo("abc").0, "abc");
}

struct Recorder {
    name: &'static str,
    log: Rc<RefCell<Vec<&'static str>>>,
}

impl Draw for Recorder {
    fn draw(&self) {
        self.log.borrow_mut().push(self.name);
    }
}

#[test]
fn screen_draws_in_order() {
    let log = Rc::new(RefCell::new(Vec::new()));
    let screen = Screen {
        components: vec![
            Box::new(Recorder {
                name: "select",
                log: log.clone(),
            }),
            Box::new(Recorder {
                name: "button",
                log: log.clone(),
            }),
        ],
    };
    screen.run();
    assert_eq!(*log.borrow(), vec!["select", "button"]);
}

#[test]
fn vegetable_and_menu() {
    let v = Vegetable::new("squash");
    assert_eq!(v.name, "squash");
    assert!(matches!(Appetizer::Soup, Appetizer::Soup));
}

#[test]
fn guesses_are_judged() {
    assert_eq!(judge(10, 50), Verdict::TooSmall);
    assert_eq!(judge(70, 50), Verdict::TooBig);
    assert_eq!(judge(50, 50), Verdict::Win);
    let g = Game::with_secret(42);
    assert_eq!(g.check(42), Verdict::Win);
    assert_eq!(g.check(41), Verdict::TooSmall);
}

#[test]
fn fresh_secret_is_in_range() {
    for _ in 0..200 {
        let g = Game::new();
        let mut found = None;
        for n in 1..=100u32 {
            if g.check(n) == Verdict::Win {
                found = Some(n);
            }
        }
        assert!(found.is_some());
    }
}

#[test]
fn decimal_parsing() {
    assert_eq!(parse_decimal("42"), Some(42));
    assert_eq!(parse_decimal("+7"), Some(7));
    assert_eq!(parse_decimal("007"), Some(7));
    assert_eq!(parse_decimal("4294967295"), Some(u32::MAX));
    assert_eq!(parse_decimal("4294967296"), None);
    assert_eq!(parse_decimal("99999999999x"), None);
    assert_eq!(parse_decimal(""), None);
    assert_eq!(parse_decimal("+"), None);
    assert_eq!(parse_decimal("-1"), None);
    assert_eq!(parse_decimal("1 2"), None);
    for s in ["0", "123", "+5", "", "+", "x", "4294967296", "18446744073709551616"] {
        assert_eq!(parse_decimal(s), s.parse::<u32>().ok());
    }
}

#[test]
fn guess_lines_are_trimmed() {
    assert_eq!(parse_guess("  57\n"), Some(57));
    assert_eq!(parse_guess("\t8 \r\n"), Some(8));
    assert_eq!(parse_guess("five\n"), None);
}

#[test]
fn points_and_lengths_add() {
    assert_eq!(Point { x: 1, y: 0 } + Point { x: 2, y: 3 }, Point { x: 3, y: 3 });
    assert_eq!(Millimeters(5) + Meters(2), Millimeters(2005));
}
