use theia::command::CommandInvocation;
use theia::parser::cmdinvoke::split_flags;

fn strings(items: &[&str]) -> Vec<String> {
    items.iter().map(|s| s.to_string()).collect()
}

#[test]
fn flag_positions_are_exact() {
    let cmd = CommandInvocation::parse(
        &["t;", "t!"],
        "t;flagtest -startone -starttwo test -midone test -endone -endtwo",
    )
    .unwrap();
    assert_eq!(cmd.invoke_id, None);
    assert_eq!(cmd.prefix, "t;");
    assert_eq!(cmd.command, "flagtest");
    assert_eq!(cmd.start_flags, strings(&["-startone", "-starttwo"]));
    assert_eq!(cmd.arguments, strings(&["test", "-midone", "test"]));
    assert_eq!(cmd.end_flags, strings(&["-endone", "-endtwo"]));
    assert!(!cmd.has_startflag_any(&["-midone", "-endone"]));
    assert!(!cmd.has_endflag_any(&["-startone", "test"]));
    assert!(cmd.has_argument_any(&["nothing", "test"]));
    assert!(!cmd.has_argument_any(&[]));
}

#[test]
fn the_three_runs_rebuild_the_tokens() {
    let tokens = strings(&["-a", "-b", "x", "-c", "y", "", "-d"]);
    let split = split_flags(&tokens);
    let mut all = split.start_flags.clone();
    all.extend(split.arguments.clone());
    all.extend(split.end_flags.clone());
    assert_eq!(all, tokens);
    assert_eq!(split.start_flags, strings(&["-a", "-b"]));
    assert_eq!(split.arguments, strings(&["x", "-c", "y", ""]));
    assert_eq!(split.end_flags, strings(&["-d"]));
}

#[test]
fn only_flags_are_all_start_flags() {
    let cmd = CommandInvocation::parse(&["t;"], "t;cmd -a -b").unwrap();
    assert_eq!(cmd.start_flags, strings(&["-a", "-b"]));
    assert!(cmd.arguments.is_empty());
    assert!(cmd.end_flags.is_empty());
}

#[test]
fn no_tokens_after_command() {
    let cmd = CommandInvocation::parse(&["t;"], "t;cmd").unwrap();
    assert_eq!(cmd.command, "cmd");
    assert!(cmd.start_flags.is_empty());
    assert!(cmd.arguments.is_empty());
    assert!(cmd.end_flags.is_empty());
}

#[test]
fn later_prefix_wins() {
    let cmd = CommandInvocation::parse(&["t", "t;"], "t;x").unwrap();
    assert_eq!(cmd.prefix, "t;");
    assert_eq!(cmd.command, "x");
    let cmd = CommandInvocation::parse(&["t;", "t"], "t;x").unwrap();
    assert_eq!(cmd.prefix, "t");
    assert_eq!(cmd.command, ";x");
}

#[test]
fn no_prefixes_no_command() {
    assert_eq!(None, CommandInvocation::parse(&[], "t;x"));
}

#[test]
fn prefix_alone_is_no_command() {
    assert_eq!(None, CommandInvocation::parse(&["t;"], "t;"));
    assert_eq!(None, CommandInvocation::parse(&["t;"], "t; \t\r\n"));
    assert_eq!(None, CommandInvocation::parse(&[""], ""));
}

#[test]
fn whitespace_between_tokens_is_dropped() {
    let cmd = CommandInvocation::parse(&["t;"], "t; \t cmd \n one\r\ntwo\u{c}three  ").unwrap();
    assert_eq!(cmd.command, "cmd");
    assert_eq!(cmd.arguments, strings(&["one", "two", "three"]));
}

#[test]
fn only_ascii_whitespace_splits() {
    let cmd = CommandInvocation::parse(&["t;"], "t;cmd a\u{a0}b c\u{2003}d").unwrap();
    assert_eq!(cmd.arguments, strings(&["a\u{a0}b", "c\u{2003}d"]));
}

#[test]
fn quoted_tokens_are_joined() {
    let cmd =
        CommandInvocation::parse(&["t;"], "t;say -f \"hello   big world\" plain \"x\" -e").unwrap();
    assert_eq!(cmd.start_flags, strings(&["-f"]));
    assert_eq!(cmd.arguments, strings(&["hello big world", "plain", "x"]));
    assert_eq!(cmd.end_flags, strings(&["-e"]));
}

#[test]
fn quoted_flag_is_a_flag() {
    let cmd = CommandInvocation::parse(&["t;"], "t;say \"-a b\" c \"-d\"").unwrap();
    assert_eq!(cmd.start_flags, strings(&["-a b"]));
    assert_eq!(cmd.arguments, strings(&["c"]));
    assert_eq!(cmd.end_flags, strings(&["-d"]));
}

#[test]
fn lone_quote_is_an_empty_argument() {
    let cmd = CommandInvocation::parse(&["t;"], "t;say \" -x").unwrap();
    assert_eq!(cmd.arguments, strings(&[""]));
    assert_eq!(cmd.end_flags, strings(&["-x"]));
}

#[test]
fn all_quotes_at_the_ends_are_stripped() {
    let cmd = CommandInvocation::parse(&["t;"], "t;\"\"say\" \"\"a\"b\"\"").unwrap();
    assert_eq!(cmd.command, "say");
    assert_eq!(cmd.arguments, strings(&["a\"b"]));
}

#[test]
fn quote_closes_at_first_closing_token() {
    let cmd = CommandInvocation::parse(&["t;"], "t;say \"a b\" c\" d").unwrap();
    assert_eq!(cmd.arguments, strings(&["a b", "c\"", "d"]));
}

#[test]
fn unterminated_quote_is_no_command() {
    assert_eq!(None, CommandInvocation::parse(&["t;"], "t;say \"hello world"));
    assert_eq!(None, CommandInvocation::parse(&["t;"], "t;say ok \"a b\" \"c"));
    assert_eq!(None, CommandInvocation::parse(&["t;"], "t;say \"a"));
}

#[test]
fn command_line_form_parses() {
    let cmd =
        CommandInvocation::parse(&[""], "\"run\" \"-de\" \"theia.toml\" \"-help\"").unwrap();
    assert_eq!(cmd.prefix, "");
    assert_eq!(cmd.command, "run");
    assert_eq!(cmd.start_flags, strings(&["-de"]));
    assert_eq!(cmd.arguments, strings(&["theia.toml"]));
    assert_eq!(cmd.end_flags, strings(&["-help"]));
    assert!(!cmd.help_requested());
    assert!(cmd.has_startflag_any(&["-de", "-dotenv"]));
}

#[test]
fn help_is_requested_by_a_start_flag_only() {
    let cmd = CommandInvocation::parse(&["t;"], "t;cmd -v -help arg").unwrap();
    assert!(cmd.help_requested());
    let cmd = CommandInvocation::parse(&["t;"], "t;cmd arg -help").unwrap();
    assert!(!cmd.help_requested());
    let cmd = CommandInvocation::parse(&["t;"], "t;cmd -helper").unwrap();
    assert!(!cmd.help_requested());
}

#[test]
fn invoke_id_is_kept_as_it_is() {
    let mut cmd = CommandInvocation::parse(&["t;"], "t;cmd -a b -c").unwrap();
    let copy = cmd.with_invoke_id();
    assert_eq!(copy, cmd);
    cmd.generate_invoke_id();
    assert_eq!(cmd.invoke_id, None);
    cmd.invoke_id = Some(String::from("abc"));
    cmd.generate_invoke_id();
    assert_eq!(cmd.invoke_id, Some(String::from("abc")));
    assert_eq!(cmd.with_invoke_id(), cmd);
    assert_eq!(cmd.clone(), cmd);
}

#[test]
fn multibyte_characters_pass_through() {
    let cmd = CommandInvocation::parse(&["\u{e9};"], "\u{e9};caf\u{e9} \"\u{1f600} x\" -\u{fc}")
        .unwrap();
    assert_eq!(cmd.prefix, "\u{e9};");
    assert_eq!(cmd.command, "caf\u{e9}");
    assert_eq!(cmd.arguments, strings(&["\u{1f600} x"]));
    assert_eq!(cmd.end_flags, strings(&["-\u{fc}"]));
}

#[test]
fn prelude_names_the_parser() {
    let cmd = theia::prelude::CommandInvocation::parse(&["!"], "!go now").unwrap();
    assert_eq!(cmd.command, "go");
    assert_eq!(cmd.arguments, strings(&["now"]));
}
