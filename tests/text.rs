use doom_launch::cmd::{CommandLine, Line};
use doom_launch::text::{eq_ignore_ascii_case, split_on, split_words};

#[test]
fn words_split_on_white_space() {
    assert_eq!(split_words("  run1 run2\trun3\n"), vec!["run1", "run2", "run3"]);
    assert!(split_words("   ").is_empty());
    assert!(split_words("").is_empty());
}

#[test]
fn pieces_split_on_separator() {
    assert_eq!(split_on("a:b::c", ':'), vec!["a", "b", "", "c"]);
    assert_eq!(split_on("", ':'), vec![""]);
    assert_eq!(split_on("demo", ':'), vec!["demo"]);
}

#[test]
fn ascii_case_folding() {
    assert!(eq_ignore_ascii_case("DOOM2", "doom2"));
    assert!(!eq_ignore_ascii_case("DOOM2", "doom"));
    assert!(!eq_ignore_ascii_case("a", "b"));
}

#[test]
fn lines_indent_first_word() {
    let l = Line::from_words(&["-file", "a.wad", "b.wad"], 2);
    assert_eq!(l.iter(), vec!["        -file", "a.wad", "b.wad"]);
    let l = Line::from_word("-fast", 1);
    assert_eq!(l.iter(), vec!["    -fast"]);
    assert!(Line::from_words(&[], 3).iter().is_empty());
}

#[test]
fn command_line_keeps_lines_in_order() {
    let mut c = CommandLine::new();
    assert!(c.iter_words().is_empty());
    c.push_line(Line::from_word("prboom", 0));
    c.push_line(Line::from_words(&["-skill", "4"], 1));
    assert_eq!(c.iter_words(), vec!["prboom", "    -skill", "4"]);
    let lines = c.iter_lines();
    assert_eq!(lines.len(), 2);
    assert_eq!(lines[1].iter(), vec!["    -skill", "4"]);
    assert_eq!(c.duplicate().iter_words(), c.iter_words());
}
