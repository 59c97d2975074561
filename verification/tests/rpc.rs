use std::path::PathBuf;
use std::sync::mpsc;
use zepi_agent_panel::json::read_json;
use zepi_agent_panel::rpc::{
    extensions_of, handed_over, launcher_of, looks_like_zepi_root, pi_of, resolve_zepi_root,
    stderr_step, stdout_step, wait_step, writer_step, Pipe, RootProbe, StartProbe, WaitOutcome,
};
use zepi_agent_panel::{
    resolve_zepi_command, Json, RpcClient, RpcClientEvent, RpcCommand, RpcError, ZepiCommand,
};

fn prompt(message: &str) -> RpcCommand {
    RpcCommand::Prompt {
        message: message.to_owned(),
    }
}

fn probe(path: &str, is_root: bool) -> RootProbe {
    RootProbe {
        path: PathBuf::from(path),
        launcher_exists: is_root,
        extensions_exist: is_root,
        pi_exists: is_root,
    }
}

fn start(is_file: bool, ancestors: Vec<RootProbe>) -> StartProbe {
    StartProbe { is_file, ancestors }
}

#[test]
fn serializes_prompt_command_as_strict_jsonl() {
    assert_eq!(
        RpcCommand::Prompt {
            message: "/plan hello".to_owned()
        }
        .to_json_line()
        .unwrap(),
        "{\"type\":\"prompt\",\"message\":\"/plan hello\"}\n"
    );
}

#[test]
fn serializes_get_commands_command() {
    assert_eq!(
        RpcCommand::GetCommands.to_json_line().unwrap(),
        "{\"type\":\"get_commands\"}\n"
    );
}

#[test]
fn serializes_the_other_commands() {
    assert_eq!(RpcCommand::Abort.to_json_line().unwrap(), "{\"type\":\"abort\"}\n");
    assert_eq!(RpcCommand::NewSession.to_json_line().unwrap(), "{\"type\":\"new_session\"}\n");
}

#[test]
fn a_prompt_is_one_line_whatever_it_holds() {
    let line = prompt("a\nb\r\"\\\t\u{8}\u{c}\u{1}\u{1f}\u{7f}ü\u{2028}").to_json_line().unwrap();
    assert_eq!(
        line,
        "{\"type\":\"prompt\",\"message\":\"a\\nb\\r\\\"\\\\\\t\\b\\f\\u0001\\u001f\u{7f}ü\u{2028}\"}\n"
    );
    assert_eq!(line.matches('\n').count(), 1);
    assert!(!line.contains('\r'));
}

#[test]
fn different_prompts_are_different_lines() {
    let prompts = ["", "n", "\n", "\\n", "\\", "\\\\", "\"", "\u{1}", "\\u0001", "u0001"];
    for a in prompts {
        for b in prompts {
            assert_eq!(
                a == b,
                prompt(a).to_json_line().unwrap() == prompt(b).to_json_line().unwrap()
            );
        }
    }
}

#[test]
fn every_character_is_written_as_serde_json_reads_it() {
    for n in 0..0x300u32 {
        let c = char::from_u32(n).unwrap();
        let text = format!("<{c}>");
        let line = prompt(&text).to_json_line().unwrap();
        let value: serde_json::Value = serde_json::from_str(&line).unwrap();
        assert_eq!(value.get("message").and_then(|m| m.as_str()), Some(text.as_str()));
        assert_eq!(value.get("type").and_then(|m| m.as_str()), Some("prompt"));
    }
}

#[test]
fn a_client_hands_its_lines_to_the_writer() {
    let (stdin, lines) = mpsc::channel();
    let (kill, kills) = mpsc::channel();
    let mut client = RpcClient::new(stdin, kill);
    assert_eq!(client.send(prompt("hi")), Ok(()));
    assert_eq!(client.send_json_line("{}".to_owned()), Ok(()));
    assert_eq!(lines.recv().unwrap(), "{\"type\":\"prompt\",\"message\":\"hi\"}\n");
    assert_eq!(lines.recv().unwrap(), "{}\n");
    assert!(lines.try_recv().is_err());
    assert!(kills.try_recv().is_err());
    client.kill();
    assert_eq!(kills.try_recv(), Ok(()));
    assert!(kills.try_recv().is_err());
    assert!(lines.try_recv().is_err());
}

#[test]
fn commands_read_back_as_their_members() {
    for (command, members) in [
        (prompt("a\n\"b\""), vec![("type", "prompt"), ("message", "a\n\"b\"")]),
        (prompt(""), vec![("type", "prompt"), ("message", "")]),
        (RpcCommand::Abort, vec![("type", "abort")]),
        (RpcCommand::NewSession, vec![("type", "new_session")]),
        (RpcCommand::GetCommands, vec![("type", "get_commands")]),
    ] {
        let expected = members
            .into_iter()
            .map(|(name, text)| (name.to_owned(), Json::Text(text.to_owned())))
            .collect();
        assert_eq!(read_json(&command.to_json_line().unwrap()), Some(Json::Object(expected)));
    }
}

#[test]
fn a_client_asks_for_the_end_when_it_is_dropped() {
    let (stdin, _lines) = mpsc::channel();
    let (kill, kills) = mpsc::channel();
    drop(RpcClient::new(stdin, kill));
    assert_eq!(kills.try_recv(), Ok(()));
}

#[test]
fn a_closed_writer_is_an_error() {
    let (stdin, lines) = mpsc::channel();
    let (kill, kills) = mpsc::channel();
    drop(lines);
    drop(kills);
    let mut client = RpcClient::new(stdin, kill);
    assert_eq!(client.send(RpcCommand::Abort), Err(RpcError::WriterClosed));
    assert_eq!(client.send_json_line("{}".to_owned()), Err(RpcError::WriterClosed));
    client.kill();
    assert_eq!(handed_over(true), Ok(()));
    assert_eq!(handed_over(false), Err(RpcError::WriterClosed));
}

#[test]
fn errors_are_put_in_words() {
    assert_eq!(RpcError::WriterClosed.message(), "Zepi RPC stdin writer is closed");
    assert_eq!(
        RpcError::LauncherNotFound("/z/zepi".to_owned()).message(),
        "Zepi launcher not found at /z/zepi"
    );
    assert_eq!(
        RpcError::RootNotFound.message(),
        "ZEPI_ROOT is not set and no Zepi checkout could be inferred"
    );
    assert_eq!(
        RpcError::NotStarted("/z/zepi".to_owned(), vec!["--mode".to_owned(), "rpc".to_owned()])
            .message(),
        "spawning /z/zepi --mode rpc"
    );
    assert_eq!(RpcError::NotStarted("z".to_owned(), vec![]).message(), "spawning z ");
    assert_eq!(RpcError::NoPipe(Pipe::Stdin).message(), "taking Zepi RPC stdin");
    assert_eq!(RpcError::NoPipe(Pipe::Stdout).message(), "taking Zepi RPC stdout");
    assert_eq!(RpcError::NoPipe(Pipe::Stderr).message(), "taking Zepi RPC stderr");
    assert_eq!(RpcError::Encoding("bad".to_owned()).message(), "bad");
}

#[test]
fn the_places_below_a_checkout() {
    let root = PathBuf::from("z");
    let bin = root.join("scripts").join("bin");
    assert_eq!(launcher_of(&root, false), bin.join("zepi"));
    assert_eq!(launcher_of(&root, true), bin.join("zepi.cmd"));
    assert_eq!(extensions_of(&root), root.join("packages").join("zepi-pi-extensions"));
    assert_eq!(pi_of(&root), root.join("pi"));
    assert_eq!(launcher_of(&PathBuf::from("/z"), false), PathBuf::from("/z/scripts/bin/zepi"));
}

#[test]
fn a_checkout_has_a_launcher_extensions_and_pi() {
    assert!(looks_like_zepi_root(&probe("/z", true)));
    for missing in 0..3 {
        let mut partial = probe("/z", true);
        match missing {
            0 => partial.launcher_exists = false,
            1 => partial.extensions_exist = false,
            _ => partial.pi_exists = false,
        }
        assert!(!looks_like_zepi_root(&partial));
    }
}

#[test]
fn the_environment_names_the_root_first() {
    let starts = vec![start(false, vec![probe("/z", true)])];
    assert_eq!(
        resolve_zepi_root(Some(PathBuf::from("/named")), starts),
        Ok(PathBuf::from("/named"))
    );
}

#[test]
fn the_search_goes_upward_from_each_start() {
    let starts = vec![
        start(true, vec![probe("/x/exe", true), probe("/x", false), probe("/", false)]),
        start(false, vec![probe("/z/a", false), probe("/z", true), probe("/", true)]),
    ];
    assert_eq!(resolve_zepi_root(None, starts), Ok(PathBuf::from("/z")));
    let starts = vec![start(false, vec![probe("/z", true)]), start(false, vec![probe("/y", true)])];
    assert_eq!(resolve_zepi_root(None, starts), Ok(PathBuf::from("/z")));
    let starts = vec![
        start(false, vec![probe("/a/b", true), probe("/a", true)]),
        start(false, vec![probe("/z", true)]),
    ];
    assert_eq!(resolve_zepi_root(None, starts), Ok(PathBuf::from("/a/b")));
    let starts = vec![start(true, vec![probe("lone", true)])];
    assert_eq!(resolve_zepi_root(None, starts), Ok(PathBuf::from("lone")));
    let starts = vec![start(true, vec![]), start(false, vec![probe("/", false)])];
    assert_eq!(resolve_zepi_root(None, starts), Err(RpcError::RootNotFound));
}

#[test]
fn a_checkout_with_a_launcher_gives_the_command() {
    for (windows, program) in [(false, "/z/scripts/bin/zepi"), (true, "/z/scripts/bin/zepi.cmd")] {
        let command = resolve_zepi_command(PathBuf::from("/z"), windows, true).unwrap();
        assert_eq!(
            command,
            ZepiCommand {
                program: PathBuf::from(program),
                args: vec!["--mode".to_owned(), "rpc".to_owned()],
                zepi_root: PathBuf::from("/z"),
            }
        );
        assert_eq!(command.clone(), command);
    }
}

#[test]
fn a_checkout_without_a_launcher_gives_none() {
    assert_eq!(
        resolve_zepi_command(PathBuf::from("/z"), false, false),
        Err(RpcError::LauncherNotFound("/z/scripts/bin/zepi".to_owned()))
    );
}

#[test]
fn output_is_reported_line_by_line() {
    for (bytes, line) in [
        (&b"{}"[..], "{}"),
        (&b"{}\r"[..], "{}"),
        (&b"a\r\r"[..], "a\r"),
        (&b"\r"[..], ""),
        (&b""[..], ""),
        ("ü\r".as_bytes(), "ü"),
    ] {
        let step = stdout_step(Ok(bytes.to_vec()));
        assert!(step.more);
        assert!(matches!(step.event, RpcClientEvent::StdoutLine(ref text) if text == line));
    }
}

#[test]
fn output_that_is_not_utf8_is_reported_and_reading_goes_on() {
    let step = stdout_step(Ok(vec![b'a', 0xff, b'b']));
    assert!(step.more);
    assert!(matches!(
        step.event,
        RpcClientEvent::Failed(ref words) if words == "invalid utf-8 sequence of 1 bytes from index 1"
    ));
}

#[test]
fn failures_end_the_reading_and_writing() {
    let step = stdout_step(Err("gone".to_owned()));
    assert!(!step.more);
    assert!(matches!(step.event, RpcClientEvent::Failed(ref words) if words == "gone"));
    let step = stderr_step(Err("gone".to_owned()));
    assert!(!step.more);
    assert!(matches!(step.event, RpcClientEvent::Failed(ref words) if words == "gone"));
    let step = stderr_step(Ok("warn".to_owned()));
    assert!(step.more);
    assert!(matches!(step.event, RpcClientEvent::StderrLine(ref line) if line == "warn"));
    assert!(writer_step(Ok(())).is_none());
    assert!(matches!(
        writer_step(Err("pipe".to_owned())),
        Some(RpcClientEvent::Failed(ref words)) if words == "pipe"
    ));
}

#[test]
fn the_end_of_the_process_is_reported() {
    assert!(wait_step(WaitOutcome::Running).is_none());
    assert!(matches!(
        wait_step(WaitOutcome::Exited(Some(3))),
        Some(RpcClientEvent::Exited(Some(3)))
    ));
    assert!(matches!(wait_step(WaitOutcome::Exited(None)), Some(RpcClientEvent::Exited(None))));
    assert!(matches!(
        wait_step(WaitOutcome::Failed("lost".to_owned())),
        Some(RpcClientEvent::Failed(ref words)) if words == "lost"
    ));
}
