use theia::config::{TheiaConfig, TheiaConfigWarning, TheiaRootPluginConfig};
use theia::discord::message::{read_target, SendTarget, TheiaDiscordMessage};
use theia::error::{TheiaCliError, TheiaError, TheiaPluginLoadError, TheiaPluginRunError};
use theia::event::TheiaEventHandler;
use theia::plugin::comms::TheiaPluginIncomingMessage;
use theia::util::runnable::RunnableCommand;

fn message(channel: &str, id: &str) -> TheiaDiscordMessage {
    TheiaDiscordMessage {
        message_id: id.to_string(),
        channel_id: channel.to_string(),
        author_id: String::from("1"),
        guild_id: None,
        webhook_id: None,
        content: String::new(),
        command_invocation: None,
        message_proxy: None,
    }
}

#[test]
fn shell_line_runs_through_sh() {
    let run = RunnableCommand::from_shell_line("python3 main.py --fast").unwrap();
    assert_eq!(run.command, "sh");
    assert_eq!(run.arguments, vec![String::from("-c"), String::from("python3 main.py --fast")]);
    assert_eq!(RunnableCommand::from_shell_line(""), None);
    assert_eq!(RunnableCommand::from_shell_line(" ").unwrap().arguments[1], " ");
}

#[test]
fn list_names_executable_then_arguments() {
    let run = RunnableCommand::from_list(&vec![
        String::from("node"),
        String::from("index.js"),
        String::from("-v"),
    ])
    .unwrap();
    assert_eq!(run.command, "node");
    assert_eq!(run.arguments, vec![String::from("index.js"), String::from("-v")]);
    let run = RunnableCommand::from_list(&vec![String::from("true")]).unwrap();
    assert_eq!(run.command, "true");
    assert!(run.arguments.is_empty());
    assert_eq!(RunnableCommand::from_list(&Vec::new()), None);
}

#[test]
fn identifiers_are_read_as_numbers() {
    assert_eq!(
        read_target("123456789012345678", None).unwrap(),
        SendTarget { channel_id: 123456789012345678, in_reply_to: None }
    );
    assert_eq!(
        read_target("+7", Some("0042")).unwrap(),
        SendTarget { channel_id: 7, in_reply_to: Some(42) }
    );
    assert_eq!(
        read_target("18446744073709551615", Some("0")).unwrap(),
        SendTarget { channel_id: u64::MAX, in_reply_to: Some(0) }
    );
}

#[test]
fn identifiers_that_write_no_number_are_errors() {
    let bad_ones =
        ["", "+", "-1", "12a", " 12", "12 ", "1_000", "18446744073709551616", "++1", "\u{661}"];
    for bad in bad_ones {
        match read_target(bad, None) {
            Err(TheiaError::ParseIntError(_)) => {}
            other => panic!("unexpected for {:?}: {:?}", bad, other),
        }
        match read_target("1", Some(bad)) {
            Err(TheiaError::ParseIntError(_)) => {}
            other => panic!("unexpected for {:?}: {:?}", bad, other),
        }
    }
    let channel_error = "x".parse::<u64>().unwrap_err();
    match read_target("x", Some("")) {
        Err(TheiaError::ParseIntError(e)) => assert_eq!(e, channel_error),
        other => panic!("unexpected: {:?}", other),
    }
}

#[test]
fn reply_goes_to_the_message_in_its_channel() {
    assert_eq!(
        message("10", "20").reply_target().unwrap(),
        SendTarget { channel_id: 10, in_reply_to: Some(20) }
    );
    assert!(message("10", "x").reply_target().is_err());
    assert!(message("", "20").reply_target().is_err());
}

#[test]
fn incoming_message_names_its_target() {
    let m = TheiaPluginIncomingMessage::SendMessage {
        channel_id: String::from("5"),
        in_reply_to: Some(String::from("6")),
        content: String::from("hello"),
    };
    assert_eq!(m.send_target().unwrap(), SendTarget { channel_id: 5, in_reply_to: Some(6) });
    let m = TheiaPluginIncomingMessage::SendMessage {
        channel_id: String::from("5"),
        in_reply_to: None,
        content: String::from("hello"),
    };
    assert_eq!(m.send_target().unwrap(), SendTarget { channel_id: 5, in_reply_to: None });
    let m = TheiaPluginIncomingMessage::SendMessage {
        channel_id: String::from("five"),
        in_reply_to: None,
        content: String::from("hello"),
    };
    assert!(matches!(m.send_target(), Err(TheiaError::ParseIntError(_))));
}

#[test]
fn errors_convert_into_their_variants() {
    let e = "x".parse::<u64>().unwrap_err();
    assert!(matches!(TheiaError::from(e.clone()), TheiaError::ParseIntError(inner) if inner == e));
    let e = String::from_utf8(vec![0xff]).unwrap_err();
    assert!(matches!(TheiaError::from(e.clone()), TheiaError::FromUtf8Error(inner) if inner == e));
    let e = std::str::from_utf8(&[0xff]).unwrap_err();
    assert!(matches!(TheiaError::from(e), TheiaError::Utf8Error(inner) if inner == e));
    let e = serde_json::from_str::<serde_json::Value>("{").unwrap_err();
    let text = e.to_string();
    assert!(matches!(
        TheiaError::from(e),
        TheiaError::SerdeJsonError(inner) if inner.to_string() == text
    ));
    let e = std::io::Error::new(std::io::ErrorKind::NotFound, "gone");
    assert!(matches!(
        TheiaError::from(e),
        TheiaError::IoError(inner) if inner.kind() == std::io::ErrorKind::NotFound
    ));
    let e = serenity::Error::Other("gateway");
    assert!(matches!(
        TheiaError::from(e),
        TheiaError::SerenityError(serenity::Error::Other("gateway"))
    ));
}

#[test]
fn error_values_compare() {
    assert_eq!(TheiaPluginRunError::ExitStatus(2), TheiaPluginRunError::ExitStatus(2));
    assert_ne!(TheiaPluginRunError::ExitStatus(2), TheiaPluginRunError::Terminated);
    assert_eq!(TheiaPluginLoadError::NotFound, TheiaPluginLoadError::NotFound);
    assert_ne!(
        TheiaCliError::UnknownSubcommand(String::from("x")),
        TheiaCliError::NoSubcommand
    );
}

#[test]
fn error_code_tells_nothing() {
    let handler = TheiaEventHandler;
    assert_eq!(handler.handle_err(TheiaError::UnknownError), "00000000000000000000000000000000");
    assert_eq!(
        handler.handle_err(TheiaError::PluginRun(
            String::from("p"),
            TheiaPluginRunError::ExitStatus(3)
        )),
        "00000000000000000000000000000000"
    );
    assert_eq!(
        handler.handle_err_reply(TheiaError::NoDiscordToken),
        "\u{274c} An error occurred: `00000000000000000000000000000000`"
    );
}

#[test]
fn configuration_warnings() {
    let mut config = TheiaConfig::default();
    assert!(config.prefixes.is_empty());
    assert_eq!(config.shard_count, 0);
    assert_eq!(
        config.warnings(),
        vec![TheiaConfigWarning::NoAdminUsers, TheiaConfigWarning::NoPlugins]
    );
    config.admin_users.push(String::from("1"));
    assert_eq!(config.warnings(), vec![TheiaConfigWarning::NoPlugins]);
    config.plugin_cfg.insert(
        String::from("dice"),
        TheiaRootPluginConfig {
            path: std::path::PathBuf::from("plugins/dice"),
            cfgdata: std::collections::HashMap::new(),
        },
    );
    assert_eq!(config.warnings(), Vec::new());
    config.admin_users.clear();
    assert_eq!(config.warnings(), vec![TheiaConfigWarning::NoAdminUsers]);
}
