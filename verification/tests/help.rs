use theia::parser::cmdhelp::parse_command_help;

#[test]
fn summary_alone() {
    let (summary, details) = parse_command_help("t;", "test", "  one line  ");
    assert_eq!(summary, "one line");
    assert_eq!(details, None);
}

#[test]
fn marks_are_filled_in_every_line() {
    let (summary, details) =
        parse_command_help("!", "roll", "%! and %! with %PREFIX%\n%PREFIX%help %!\n%");
    assert_eq!(summary, "!roll and !roll with !");
    assert_eq!(details, Some(String::from("!help !roll\n%")));
}

#[test]
fn invocation_mark_is_filled_before_prefix_mark() {
    let (summary, _) = parse_command_help("%PREFIX%", "x", "%!");
    assert_eq!(summary, "%PREFIX%x");
    let (summary, _) = parse_command_help("a", "%PREFIX%", "%!");
    assert_eq!(summary, "aa");
}

#[test]
fn overlapping_marks_are_read_left_to_right() {
    let (summary, _) = parse_command_help("p", "c", "%%!%!!");
    assert_eq!(summary, "%pcpc!");
    let (summary, _) = parse_command_help("p", "c", "%PREFIX%PREFIX%");
    assert_eq!(summary, "pPREFIX%");
}

#[test]
fn blank_second_line_gives_empty_details() {
    let (summary, details) = parse_command_help("t;", "test", "first\n \nthird");
    assert_eq!(summary, "first");
    assert_eq!(details, Some(String::from("third")));
    let (summary, details) = parse_command_help("t;", "test", "first\n\n\u{a0}\n\nlast\n");
    assert_eq!(summary, "first");
    assert_eq!(details, Some(String::from("last")));
}

#[test]
fn details_keep_inner_blank_lines() {
    let (_, details) = parse_command_help("t;", "test", "s\n a \n\n b \n");
    assert_eq!(details, Some(String::from("a\n\nb")));
}

#[test]
fn substituted_whitespace_stays_in_summary_but_not_around_details() {
    let (summary, details) = parse_command_help(" ", "c", "%PREFIX%\n%PREFIX%x%PREFIX%");
    assert_eq!(summary, " ");
    assert_eq!(details, Some(String::from("x")));
}

#[test]
fn carriage_returns_are_trimmed() {
    let (summary, details) = parse_command_help("t;", "test", "one\r\ntwo\r\n");
    assert_eq!(summary, "one");
    assert_eq!(details, Some(String::from("two")));
}
