use yazi_nav::input::{Input, Opt};

fn typed(text: &str) -> Input {
    let mut input = Input::new("");
    for c in text.chars() {
        input.type_char(c);
    }
    input
}

fn opt(word: &str, ticket: usize) -> Opt {
    Opt { word: word.to_string(), ticket }
}

#[test]
fn completes_word_after_last_separator() {
    let mut input = typed("/home/us");
    assert_eq!(input.ticket(), 8);
    let before = input.cursor();
    assert!(input.complete(opt("user", 8)));
    assert_eq!(input.value(), "/home/user");
    assert_eq!(input.cursor() as isize - before as isize, 2);
    assert_eq!(input.ticket(), 8);
}

fn home_us_ticket_three() -> Input {
    let mut input = Input::new("/home");
    input.type_char('/');
    input.type_char('u');
    input.type_char('s');
    assert_eq!(input.value(), "/home/us");
    assert_eq!(input.ticket(), 3);
    input
}

#[test]
fn scenario_matching_ticket_applies() {
    let mut input = home_us_ticket_three();
    let before = input.cursor();
    assert!(input.complete(opt("user", 3)));
    assert_eq!(input.value(), "/home/user");
    assert_eq!(input.cursor() - before, 2);
    assert_eq!(input.ticket(), 3);
}

#[test]
fn scenario_older_ticket_is_refused() {
    let mut input = home_us_ticket_three();
    assert!(!input.complete(opt("user", 2)));
    assert_eq!(input.value(), "/home/us");
    assert_eq!(input.cursor(), 8);
}

#[test]
fn text_after_cursor_survives_completion() {
    let mut three = Input::new("/home/");
    three.type_char('u');
    three.type_char('s');
    three.type_char('x');
    three.move_(-1);
    assert_eq!(three.before_cursor(), "/home/us");
    assert!(three.complete(opt("user", 3)));
    assert_eq!(three.value(), "/home/userx");
    assert_eq!(three.cursor(), 10);
}

#[test]
fn no_separator_replaces_whole_prefix() {
    let mut input = Input::new("docs");
    assert!(input.complete(opt("downloads", 0)));
    assert_eq!(input.value(), "downloads");
    assert_eq!(input.cursor(), 9);
}

#[test]
fn text_after_cursor_is_kept() {
    let mut input = Input::new("/a/bc/rest");
    input.move_(-5);
    assert_eq!(input.before_cursor(), "/a/bc");
    assert!(input.complete(opt("bcd", 0)));
    assert_eq!(input.value(), "/a/bcd/rest");
    assert_eq!(input.cursor(), 6);
}

#[test]
fn identical_completion_is_noop() {
    let mut input = Input::new("/home/user");
    assert!(!input.complete(opt("user", 0)));
    assert_eq!(input.value(), "/home/user");
    assert_eq!(input.cursor(), 10);
}

#[test]
fn multibyte_cursor_moves_by_characters() {
    let mut input = Input::new("/données/é");
    assert_eq!(input.cursor(), 10);
    assert!(input.complete(opt("été", 0)));
    assert_eq!(input.value(), "/données/été");
    assert_eq!(input.cursor(), 12);
}

#[test]
fn empty_word_clears_last_segment() {
    let mut input = Input::new("/tmp/abc");
    assert!(input.complete(opt("", 0)));
    assert_eq!(input.value(), "/tmp/");
    assert_eq!(input.cursor(), 5);
}

#[test]
fn completion_keeps_ticket_for_second_request() {
    let mut input = Input::new("/x/a");
    assert!(input.complete(opt("ab", 0)));
    assert!(input.complete(opt("abc", 0)));
    assert_eq!(input.value(), "/x/abc");
}

#[test]
fn opt_from_args_reads_word_and_ticket() {
    let args = vec!["word".to_string(), "other".to_string()];
    let o = Opt::from_args(&args, Some("42"));
    assert_eq!(o.word, "word");
    assert_eq!(o.ticket, 42);
    assert_eq!(Opt::from_args(&args, Some("+7")).ticket, 7);
    assert_eq!(Opt::from_args(&args, Some("x1")).ticket, 0);
    assert_eq!(Opt::from_args(&args, Some("-1")).ticket, 0);
    assert_eq!(Opt::from_args(&args, None).ticket, 0);
    let none: Vec<String> = Vec::new();
    assert_eq!(Opt::from_args(&none, Some("3")).word, "");
}

#[test]
fn move_clamps_at_ends() {
    let mut input = Input::new("abc");
    input.move_(-10);
    assert_eq!(input.cursor(), 0);
    input.move_(2);
    assert_eq!(input.cursor(), 2);
    input.move_(10);
    assert_eq!(input.cursor(), 3);
    assert_eq!(input.ticket(), 0);
}
