use std::collections::HashMap;
use std::path::PathBuf;
use theia::error::{TheiaError, TheiaPluginRunError};
use theia::plugin::comms::{TheiaPluginIncomingMessage, TheiaPluginOutgoingMessage};
use theia::plugin::config::{TheiaPluginCommandConfig, TheiaPluginConfig};
use theia::plugin::{split_response, TheiaPlugin};
use theia::util::runnable::RunnableCommand;

fn command(name: &str, aliases: &[&str], passthrough: Option<bool>) -> TheiaPluginCommandConfig {
    TheiaPluginCommandConfig {
        name: name.to_string(),
        aliases: aliases.iter().map(|s| s.to_string()).collect(),
        help_passthrough: passthrough,
        help: format!("`%! <arg>` - does {}\nmore on {}", name, name),
        hidden: false,
    }
}

fn plugin(name: &str, passthrough: bool, commands: Vec<TheiaPluginCommandConfig>) -> TheiaPlugin {
    TheiaPlugin::new(
        PathBuf::from(format!("/plugins/{}", name)),
        TheiaPluginConfig {
            name: name.to_string(),
            run: RunnableCommand::from_shell_line("./run").unwrap(),
            help_passthrough: passthrough,
            cfgdata: HashMap::new(),
            commands,
        },
    )
}

fn send(channel: &str, reply: Option<&str>, content: &str) -> TheiaPluginIncomingMessage {
    TheiaPluginIncomingMessage::SendMessage {
        channel_id: channel.to_string(),
        in_reply_to: reply.map(|s| s.to_string()),
        content: content.to_string(),
    }
}

fn concat_line(parts: &[&str]) -> String {
    parts.concat()
}

// Reads one line of a response as the wire form of `SendMessage`.
fn decode(line: &str) -> Result<TheiaPluginIncomingMessage, serde_json::Error> {
    let value: serde_json::Value = serde_json::from_str(line)?;
    let body = &value["SendMessage"];
    Ok(TheiaPluginIncomingMessage::SendMessage {
        channel_id: body["channel_id"].as_str().unwrap().to_string(),
        in_reply_to: body["in_reply_to"].as_str().map(|s| s.to_string()),
        content: body["content"].as_str().unwrap().to_string(),
    })
}

#[test]
fn request_is_lines_with_a_final_line_feed() {
    let lines = vec![String::from("{\"a\":1}"), String::from("{\"b\":2}"), String::from("{}")];
    assert_eq!(TheiaPlugin::request_payload(&lines), "{\"a\":1}\n{\"b\":2}\n{}\n");
    assert_eq!(TheiaPlugin::request_payload(&vec![String::from("x")]), "x\n");
    assert_eq!(TheiaPlugin::request_payload(&Vec::new()), "\n");
}

#[test]
fn exit_code_three_is_an_exit_status_error() {
    let p = plugin("dice", false, vec![]);
    match p.response_lines(Some(3), b"{\"ignored\": true}\n".to_vec()) {
        Err(TheiaError::PluginRun(name, why)) => {
            assert_eq!(name, "dice");
            assert_eq!(why, TheiaPluginRunError::ExitStatus(3));
        }
        other => panic!("unexpected: {:?}", other),
    }
    match p.check_exit(Some(-1)) {
        Err(TheiaError::PluginRun(name, why)) => {
            assert_eq!(name, "dice");
            assert_eq!(why, TheiaPluginRunError::ExitStatus(-1));
        }
        other => panic!("unexpected: {:?}", other),
    }
}

#[test]
fn missing_exit_code_is_a_termination() {
    let p = plugin("dice", false, vec![]);
    match p.response_lines(None, Vec::new()) {
        Err(TheiaError::PluginRun(name, why)) => {
            assert_eq!(name, "dice");
            assert_eq!(why, TheiaPluginRunError::Terminated);
        }
        other => panic!("unexpected: {:?}", other),
    }
    assert!(p.check_exit(Some(0)).is_ok());
}

#[test]
fn output_that_is_not_utf8_is_a_decode_error() {
    let p = plugin("dice", false, vec![]);
    match p.response_lines(Some(0), vec![b'a', 0xff, b'\n']) {
        Err(TheiaError::FromUtf8Error(_)) => {}
        other => panic!("unexpected: {:?}", other),
    }
    match p.response_lines(Some(1), vec![0xff]) {
        Err(TheiaError::PluginRun(_, why)) => assert_eq!(why, TheiaPluginRunError::ExitStatus(1)),
        other => panic!("unexpected: {:?}", other),
    }
}

#[test]
fn output_is_cut_into_trimmed_lines() {
    let p = plugin("dice", false, vec![]);
    let output = "  {\"a\": 1}\t\r\n\n \u{a0} \n{\"b\": \"x y\"}";
    let lines = p.response_lines(Some(0), output.as_bytes().to_vec()).unwrap();
    assert_eq!(lines, vec![String::from("{\"a\": 1}"), String::from("{\"b\": \"x y\"}")]);
    assert_eq!(p.response_lines(Some(0), Vec::new()).unwrap(), Vec::<String>::new());
    assert_eq!(split_response("\n\n \n"), Vec::<String>::new());
    assert_eq!(split_response("caf\u{e9}\n"), vec![String::from("caf\u{e9}")]);
}

#[test]
fn echoed_message_round_trips() {
    let p = plugin("echo", false, vec![]);
    let line = concat_line(&[
        "{\"SendMessage\":{\"channel_id\":\"42\",",
        "\"in_reply_to\":null,\"content\":\"hi there\"}}",
    ]);
    let lines = p.response_lines(Some(0), format!("{}\n", line).into_bytes()).unwrap();
    assert_eq!(lines, vec![line.clone()]);
    assert_eq!(lines.len(), 1);
    let decoded = lines.iter().map(|l| decode(l)).collect();
    let messages = TheiaPlugin::responses(decoded).unwrap();
    assert_eq!(messages, vec![send("42", None, "hi there")]);
}

#[test]
fn malformed_line_fails_the_whole_response() {
    let p = plugin("echo", false, vec![]);
    let good = "{\"SendMessage\":{\"channel_id\":\"42\",\"in_reply_to\":\"7\",\"content\":\"hi\"}}";
    let out = format!("{}\n{{\"SendMessage\": \n", good);
    let lines = p.response_lines(Some(0), out.into_bytes()).unwrap();
    assert_eq!(lines.len(), 2);
    let decoded = lines.iter().map(|l| decode(l)).collect();
    match TheiaPlugin::responses(decoded) {
        Err(TheiaError::SerdeJsonError(_)) => {}
        other => panic!("unexpected: {:?}", other),
    }
}

#[test]
fn responses_keep_their_order_and_report_the_first_error() {
    let ok = TheiaPlugin::responses(vec![
        Ok(send("1", None, "a")),
        Ok(send("2", Some("9"), "b")),
        Ok(send("3", None, "c")),
    ])
    .unwrap();
    assert_eq!(ok, vec![send("1", None, "a"), send("2", Some("9"), "b"), send("3", None, "c")]);
    assert_eq!(TheiaPlugin::responses(Vec::new()).unwrap(), Vec::new());

    let first = serde_json::from_str::<serde_json::Value>("[1,").unwrap_err();
    let second = serde_json::from_str::<serde_json::Value>("}").unwrap_err();
    let expected = first.to_string();
    assert_ne!(expected, second.to_string());
    match TheiaPlugin::responses(vec![Ok(send("1", None, "a")), Err(first), Err(second)]) {
        Err(TheiaError::SerdeJsonError(e)) => assert_eq!(e.to_string(), expected),
        other => panic!("unexpected: {:?}", other),
    }
}

#[test]
fn plugin_starts_without_bot_data_and_takes_it_whole() {
    let mut p = plugin("dice", false, vec![command("roll", &["r"], None)]);
    assert_eq!(p.name(), "dice");
    assert_eq!(p.path, PathBuf::from("/plugins/dice"));
    assert!(p.cfgdata.is_empty());
    let mut data = HashMap::new();
    data.insert(String::from("sides"), serde_json::Value::from(6));
    p.configure(&data).unwrap();
    assert_eq!(p.cfgdata, data);
    let mut other = HashMap::new();
    other.insert(String::from("seed"), serde_json::Value::Null);
    p.configure(&other).unwrap();
    assert_eq!(p.cfgdata, other);
    assert_eq!(p.name(), "dice");
}

#[test]
fn command_lookup_goes_by_name_and_first_match() {
    let mut second = command("roll", &[], None);
    second.help = String::from("second");
    let p = plugin(
        "dice",
        false,
        vec![command("flip", &["roll"], None), command("roll", &["r"], None), second],
    );
    assert_eq!(p.command_config("roll").unwrap().aliases, vec![String::from("r")]);
    assert_eq!(p.command_config("flip").unwrap().name, "flip");
    assert!(p.command_config("r").is_none());
    assert!(p.command_config("").is_none());
    assert_eq!(p.config.command_index("roll"), Some(1));
    assert_eq!(p.config.answering_index("roll"), Some(0));
    assert_eq!(p.config.answering_index("r"), Some(1));
    assert_eq!(p.config.answering_index("x"), None);
    assert!(p.config.owns_command("r"));
    assert!(!p.config.owns_command("ro"));
}

#[test]
fn aliases_resolve_to_the_command_name() {
    let p = plugin(
        "dice",
        false,
        vec![command("roll", &["r", "dice"], None), command("flip", &["coin"], None)],
    );
    assert_eq!(p.config.resolve_alias("r"), "roll");
    assert_eq!(p.config.resolve_alias("dice"), "roll");
    assert_eq!(p.config.resolve_alias("coin"), "flip");
    assert_eq!(p.config.resolve_alias("roll"), "roll");
    assert_eq!(p.config.resolve_alias("unknown"), "unknown");
}

#[test]
fn help_policy_follows_the_command_then_the_plugin() {
    let commands = || {
        vec![
            command("own", &["o"], Some(true)),
            command("local", &[], Some(false)),
            command("plain", &[], None),
        ]
    };
    let p = plugin("a", false, commands());
    assert!(!p.config.handle_help("own"));
    assert!(p.config.handle_help("local"));
    assert!(p.config.handle_help("plain"));
    assert!(p.config.handle_help("missing"));
    assert!(p.config.handle_help("o"));
    let p = plugin("b", true, commands());
    assert!(!p.config.handle_help("own"));
    assert!(p.config.handle_help("local"));
    assert!(!p.config.handle_help("plain"));
    assert!(!p.config.handle_help("missing"));
}

#[test]
fn plugin_config_message_carries_both_sets_of_data() {
    let mut p = plugin("dice", false, vec![]);
    p.config.cfgdata.insert(String::from("own"), serde_json::Value::Bool(true));
    let mut data = HashMap::new();
    data.insert(String::from("bot"), serde_json::Value::from("x"));
    p.configure(&data).unwrap();
    match TheiaPluginOutgoingMessage::plugin_config(&p) {
        TheiaPluginOutgoingMessage::PluginConfig { plugin_name, config_plugin, config_bot } => {
            assert_eq!(plugin_name, "dice");
            assert_eq!(config_plugin, p.config.cfgdata);
            assert_eq!(config_bot, data);
        }
        other => panic!("unexpected: {:?}", other),
    }
}

#[test]
fn names_and_aliases_must_not_repeat() {
    let p = plugin(
        "dice",
        false,
        vec![command("roll", &["r", "dice"], None), command("flip", &["coin"], None)],
    );
    assert!(p.config.is_well_formed());
    assert!(plugin("none", false, vec![]).config.is_well_formed());
    let p =
        plugin("dice", false, vec![command("roll", &["r"], None), command("flip", &["r"], None)]);
    assert!(!p.config.is_well_formed());
    let p = plugin("dice", false, vec![command("roll", &["r"], None), command("roll", &[], None)]);
    assert!(!p.config.is_well_formed());
    let p = plugin("dice", false, vec![command("roll", &["x", "x"], None)]);
    assert!(!p.config.is_well_formed());
    let p = plugin("dice", false, vec![command("roll", &["roll"], None)]);
    assert!(!p.config.is_well_formed());
    let p = plugin("dice", false, vec![command("a", &["b"], None), command("c", &["a"], None)]);
    assert!(!p.config.is_well_formed());
}

#[test]
fn time_running_out_is_a_run_error() {
    let p = plugin("slow", false, vec![]);
    match p.timed_out() {
        TheiaError::PluginRun(name, why) => {
            assert_eq!(name, "slow");
            assert_eq!(why, TheiaPluginRunError::TimedOut);
        }
        other => panic!("unexpected: {:?}", other),
    }
}

#[test]
fn framed_request_reads_back_line_for_line() {
    let p = plugin("echo", false, vec![]);
    let lines = vec![
        String::from("{\"BotInfo\":{}}"),
        String::from("{\"Message\":{\"content\":\"a  b\"}}"),
        String::from("x"),
    ];
    let payload = TheiaPlugin::request_payload(&lines);
    assert_eq!(p.response_lines(Some(0), payload.into_bytes()).unwrap(), lines);
    let payload = TheiaPlugin::request_payload(&Vec::new());
    assert_eq!(p.response_lines(Some(0), payload.into_bytes()).unwrap(), Vec::<String>::new());
}
