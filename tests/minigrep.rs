use hello::minigrep::{
    contains_text, run, search, search_case_insensitive, Config, MISSING_FILENAME, MISSING_QUERY,
};

#[test]
fn case_sensitive() {
    let query = "duct";
    let contents = "\
Rust:
safe, fast, productive.
Pick three.
Duct tape.";

    assert_eq!(vec!["safe, fast, productive."], search(query, contents));
}

#[test]
fn case_incensitive() {
    let query = "rUST";
    let contents = "\
Rust:
safe, fast, productive.
Pick three.
Trust me.";
    assert_eq!(
        vec!["Rust:", "Trust me."],
        search_case_insensitive(query, contents)
    );
}

#[test]
fn search_finds_nothing_in_empty_text() {
    assert!(search("a", "").is_empty());
    assert!(search_case_insensitive("a", "").is_empty());
}

#[test]
fn empty_query_matches_every_line() {
    assert_eq!(search("", "a\n\nb\n"), vec!["a", "", "b"]);
}

#[test]
fn search_strips_carriage_return_before_line_feed() {
    assert_eq!(search("x", "ax\r\nbx\r"), vec!["ax", "bx\r"]);
}

#[test]
fn search_is_case_sensitive() {
    assert!(search("rust", "Rust:\nTrust me.").len() == 1);
    assert_eq!(search("rust", "Rust:\nTrust me."), vec!["Trust me."]);
}

#[test]
fn case_insensitive_search_folds_non_ascii() {
    assert_eq!(search_case_insensitive("ÄPFEL", "äpfel\nbirnen"), vec!["äpfel"]);
}

#[test]
fn contains_text_cases() {
    assert!(contains_text("hello", "ell"));
    assert!(contains_text("hello", ""));
    assert!(contains_text("hello", "hello"));
    assert!(!contains_text("hello", "hello!"));
    assert!(!contains_text("", "a"));
    assert!(!contains_text("hello", "Ell"));
}

#[test]
fn config_errors() {
    let none: Vec<String> = vec![];
    assert_eq!(Config::new(&none, true).err(), Some(MISSING_QUERY));
    let only_program = vec![String::from("minigrep")];
    assert_eq!(Config::new(&only_program, true).err(), Some(MISSING_QUERY));
    let no_file = vec![String::from("minigrep"), String::from("the")];
    assert_eq!(Config::new(&no_file, true).err(), Some(MISSING_FILENAME));
}

#[test]
fn config_reads_query_and_file() {
    let args = vec![
        String::from("minigrep"),
        String::from("the"),
        String::from("poem.txt"),
        String::from("extra"),
    ];
    let c = Config::new(&args, false).ok().unwrap();
    assert_eq!(c.query, "the");
    assert_eq!(c.filename, "poem.txt");
    assert!(!c.case_sensitive);
}

#[test]
fn run_follows_case_setting() {
    let args = vec![
        String::from("minigrep"),
        String::from("rUST"),
        String::from("poem.txt"),
    ];
    let contents = "Rust:\nTrust me.\nnothing";
    let sensitive = Config::new(&args, true).ok().unwrap();
    assert!(run(&sensitive, contents).is_empty());
    let insensitive = Config::new(&args, false).ok().unwrap();
    assert_eq!(run(&insensitive, contents), vec!["Rust:", "Trust me."]);
}
