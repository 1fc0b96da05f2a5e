use hello::ownership::{
    calculate_length, calculate_length2, change2, first_word, gives_ownership, no_dangle,
    takes_and_gives_back,
};

#[test]
fn test1() {
    let s = "hello";
    println!("{}", s);

    let mut s = "hello";
    s = "world";
    println!("{}", s);

    let mut s = String::from("hello");
    s.push_str(", world");
    println!("{}", s);

    {
        let _s = String::from("hello");
    }

    let s1 = gives_ownership();
    let s2 = String::from("hello");
    let s3 = takes_and_gives_back(s2);
    println!("{} {}", s1, s3);

    let s1 = String::from("hello");
    let len = calculate_length2(&s1);
    println!("{}", len);
}

#[test]
fn first_word_cases() {
    assert_eq!(first_word("hello world"), "hello");
    assert_eq!(first_word("hello"), "hello");
    assert_eq!(first_word(""), "");
    assert_eq!(first_word(" lead"), "");
    assert_eq!(first_word("héllo wörld"), "héllo");
}

#[test]
fn lengths_count_bytes() {
    let (s, n) = calculate_length(String::from("hello"));
    assert_eq!(s, "hello");
    assert_eq!(n, 5);
    assert_eq!(calculate_length2(&String::from("Здравствуйте")), 24);
}

#[test]
fn change2_appends() {
    let mut s = no_dangle();
    change2(&mut s);
    assert_eq!(s, "hello, world");
}
