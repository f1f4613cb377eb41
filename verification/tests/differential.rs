use theia::command::CommandInvocation;
use theia::parser::cmdhelp::parse_command_help;
use theia::plugin::split_response;

// A small deterministic generator of test inputs.
struct Lcg(u64);

impl Lcg {
    fn next(&mut self) -> u64 {
        self.0 = self.0.wrapping_mul(6364136223846793005).wrapping_add(1442695040888963407);
        self.0 >> 33
    }

    fn text(&mut self, alphabet: &[&str], max_len: u64) -> String {
        let len = self.next() % (max_len + 1);
        let mut s = String::new();
        for _ in 0..len {
            s.push_str(alphabet[(self.next() % alphabet.len() as u64) as usize]);
        }
        s
    }
}

// The parser, written with the standard library's string functions.
fn reference_parse(prefixes: &[&str], input: &str) -> Option<CommandInvocation> {
    let prefix = prefixes.iter().rev().find(|p| input.starts_with(**p))?;
    let rest = &input[prefix.len()..];
    let tokens: Vec<&str> = rest.split_ascii_whitespace().collect();
    if tokens.is_empty() {
        return None;
    }
    let mut args: Vec<String> = Vec::new();
    let mut i = 1;
    while i < tokens.len() {
        let mut arg = tokens[i].to_string();
        if arg.starts_with('"') {
            while !arg.ends_with('"') {
                i += 1;
                if i >= tokens.len() {
                    return None;
                }
                arg = format!("{} {}", arg, tokens[i]);
            }
            arg = arg.trim_start_matches('"').trim_end_matches('"').to_string();
        }
        args.push(arg);
        i += 1;
    }
    let first = args.iter().position(|a| !a.starts_with('-'));
    let last = args.iter().rposition(|a| !a.starts_with('-'));
    let (start_flags, arguments, end_flags) = match (first, last) {
        (Some(a), Some(b)) => {
            (args[..a].to_vec(), args[a..=b].to_vec(), args[b + 1..].to_vec())
        }
        _ => (args.clone(), Vec::new(), Vec::new()),
    };
    Some(CommandInvocation {
        invoke_id: None,
        prefix: prefix.to_string(),
        command: tokens[0].trim_start_matches('"').trim_end_matches('"').to_string(),
        start_flags,
        arguments,
        end_flags,
    })
}

// The help parser, written with the standard library's string functions.
fn reference_help(prefix: &str, cmdname: &str, helpstr: &str) -> (String, Option<String>) {
    let cmd = format!("{}{}", prefix, cmdname);
    let lines: Vec<String> = helpstr
        .trim()
        .split('\n')
        .map(|x| x.trim())
        .map(|x| x.replace("%!", &cmd).replace("%PREFIX%", prefix))
        .collect();
    let summary = lines[0].clone();
    let details =
        if lines.len() > 1 { Some(lines[1..].join("\n").trim().to_string()) } else { None };
    (summary, details)
}

#[test]
fn parser_agrees_with_the_standard_library() {
    let alphabet = [" ", " ", "\t", "\n", "\"", "-", "a", "b", "t", ";", "!", "\u{e9}", "\u{a0}"];
    let prefix_sets: [&[&str]; 5] =
        [&["t;", "t!"], &[""], &["t", "t;", "t;a"], &[], &["\"", "-", " "]];
    let mut rng = Lcg(0x2545f4914f6cdd1d);
    let mut parsed = 0;
    for round in 0..4000 {
        let prefixes = prefix_sets[round % prefix_sets.len()];
        let mut input = rng.text(&alphabet, 24);
        if round % 3 == 0 {
            input = format!("t;{}", input);
        }
        let got = CommandInvocation::parse(prefixes, &input);
        assert_eq!(got, reference_parse(prefixes, &input), "{:?} {:?}", prefixes, input);
        if got.is_some() {
            parsed += 1;
        }
    }
    assert!(parsed > 500);
}

#[test]
fn help_parser_agrees_with_the_standard_library() {
    let alphabet =
        [" ", "\n", "\n", "\t", "%!", "%PREFIX%", "%", "!", "P", "x", "`", "\u{3000}", "\r"];
    let names = ["", "t;", "%", "%PREFIX%", " ", "roll", "%!", "!"];
    let mut rng = Lcg(0x9e3779b97f4a7c15);
    let mut with_details = 0;
    for _ in 0..4000 {
        let prefix = names[(rng.next() % names.len() as u64) as usize];
        let cmdname = names[(rng.next() % names.len() as u64) as usize];
        let help = rng.text(&alphabet, 20);
        let got = parse_command_help(prefix, cmdname, &help);
        assert_eq!(got, reference_help(prefix, cmdname, &help), "{:?}", (prefix, cmdname, &help));
        if got.1.is_some() {
            with_details += 1;
        }
    }
    assert!(with_details > 500);
}

#[test]
fn response_lines_agree_with_the_standard_library() {
    let alphabet = [" ", "\n", "\n", "\t", "{", "}", "\"", "a", "\r", "\u{a0}", "\u{e9}"];
    let mut rng = Lcg(0xda942042e4dd58b5);
    for _ in 0..4000 {
        let output = rng.text(&alphabet, 24);
        let expected: Vec<String> = output
            .split("\n")
            .map(|x| x.trim())
            .filter(|x| &"" != x)
            .map(String::from)
            .collect();
        assert_eq!(split_response(&output), expected, "{:?}", output);
    }
}
