use oblivion::terminal::command::{
    cat_output, date_output, env_output, ls_output, parse_line, pwd_output, respond, uname_output,
    whoami_output, Builtin, CommandError, CommandOutput, HostQuery, Reply, Request, CD_NOTE,
    CLEAR_SEQUENCE, HELP, HISTORY_NOTE,
};
use oblivion::terminal::{command_line_bytes, repl_banner, repl_input, repl_outcome, ReplInput, PROMPT};

const VERSION: &str = "0.1.0";

fn evaluate(line: &str) -> Reply {
    respond(parse_line(line), "/tmp", VERSION)
}

fn done(line: &str) -> CommandOutput {
    match evaluate(line) {
        Reply::Done(Ok(out)) => out,
        other => panic!("expected a finished command for {:?}, got {:?}", line, other),
    }
}

#[test]
fn echo_returns_input() {
    let out = done("echo hello world");
    assert_eq!(out.stdout, b"hello world\n");
    assert_eq!(out.exit, Some(0));
}

#[test]
fn echo_handles_trailing_whitespace() {
    let out = done("echo abc   ");
    assert_eq!(out.stdout, b"abc\n");
}

#[test]
fn echo_collapses_inner_whitespace() {
    let out = done("  echo   a \t b  ");
    assert_eq!(out.stdout, b"a b\n");
    assert!(out.stderr.is_empty());
}

#[test]
fn pwd_returns_existing_dir() {
    assert!(matches!(evaluate("pwd"), Reply::Ask(HostQuery::Pwd)));
    let out = pwd_output("/tmp");
    assert!(!out.stdout.is_empty(), "pwd should produce output");
    assert!(out.stdout.ends_with(b"\n"));
    assert_eq!(out.stdout, b"/tmp\n");
}

#[test]
fn ls_lists_current_dir() {
    assert!(matches!(evaluate("ls"), Reply::Ask(HostQuery::Ls(None))));
    let out = ls_output(&vec![b"a.txt".to_vec(), b"b".to_vec()]);
    assert_eq!(out.exit, Some(0));
    assert_eq!(out.stdout, b"a.txt\nb\n");
}

#[test]
fn ls_with_path_asks_for_that_path() {
    match evaluate("ls /etc extra") {
        Reply::Ask(HostQuery::Ls(Some(p))) => assert_eq!(p, "/etc"),
        other => panic!("unexpected {:?}", other),
    }
}

#[test]
fn unknown_command_returns_127() {
    let out = done("nonsense-cmd");
    assert_eq!(out.exit, Some(127));
    assert!(!out.stderr.is_empty());
    assert_eq!(
        out.stderr,
        b"obl: command not found: `nonsense-cmd` (try `:help` for built-ins or use a real shell)\n"
    );
    assert!(out.stdout.is_empty());
}

#[test]
fn help_mentions_echo() {
    let out = done(":help");
    assert!(
        out.stdout.windows(b"echo".len()).any(|w| w == b"echo"),
        "help output should mention `echo`"
    );
    assert_eq!(out.stdout, HELP.as_bytes());
    assert_eq!(done(":?").stdout, HELP.as_bytes());
}

#[test]
fn version_returns_pkg_version() {
    let out = done(":version");
    assert!(out.stdout.starts_with(b"oblivion-terminal "));
    assert_eq!(out.stdout, b"oblivion-terminal 0.1.0\n");
    assert_eq!(done(":v").stdout, b"oblivion-terminal 0.1.0\n");
}

#[test]
fn cat_reads_existing_file() {
    match evaluate("cat /tmp/x/hello.txt") {
        Reply::Ask(HostQuery::Cat(files)) => assert_eq!(files, vec!["/tmp/x/hello.txt".to_string()]),
        other => panic!("unexpected {:?}", other),
    }
    let out = cat_output(&vec![b"sample contents\n".to_vec()]);
    assert_eq!(out.stdout, b"sample contents\n");
}

#[test]
fn cat_concatenates_files_in_order() {
    let out = cat_output(&vec![b"one\n".to_vec(), b"".to_vec(), b"two".to_vec()]);
    assert_eq!(out.stdout, b"one\ntwo");
    assert_eq!(out.exit, Some(0));
}

#[test]
fn cat_without_operand_fails() {
    let out = done("cat");
    assert_eq!(out.exit, Some(1));
    assert_eq!(out.stderr, b"cat: missing operand\n");
}

#[test]
fn empty_line_is_noop() {
    let out = done("");
    assert_eq!(out.exit, Some(0));
    assert!(out.stdout.is_empty());
    let out = done("   \t ");
    assert_eq!(out.exit, Some(0));
    assert!(out.stdout.is_empty());
}

#[test]
fn exit_and_quit_say_bye() {
    assert_eq!(done(":exit").stdout, b"bye\n");
    assert_eq!(done(":quit").stdout, b"bye\n");
    assert!(matches!(parse_line(":exit"), Request::Exit));
}

#[test]
fn unknown_meta_command_is_an_error() {
    match evaluate(":frobnicate") {
        Reply::Done(Err(e)) => {
            assert!(matches!(&e, CommandError::UnknownBuiltin(m) if m == "frobnicate"));
            assert_eq!(e.message(), "unknown built-in: `:frobnicate` (type `:help` for the list)");
        }
        other => panic!("unexpected {:?}", other),
    }
}

#[test]
fn cd_prints_cwd_or_a_note() {
    assert_eq!(done("cd").stdout, b"/tmp\n");
    let out = done("cd /somewhere");
    assert_eq!(out.exit, Some(1));
    assert_eq!(out.stderr, CD_NOTE.as_bytes());
}

#[test]
fn history_and_clear_print_fixed_text() {
    assert_eq!(done("history").stdout, HISTORY_NOTE.as_bytes());
    assert_eq!(done("clear").stdout, CLEAR_SEQUENCE.as_bytes());
    assert_eq!(CLEAR_SEQUENCE, "\x1b[2J\x1b[H");
}

#[test]
fn host_builtins_ask_the_host() {
    assert!(matches!(evaluate("date"), Reply::Ask(HostQuery::Date)));
    assert!(matches!(evaluate("env"), Reply::Ask(HostQuery::Env)));
    assert!(matches!(evaluate("whoami"), Reply::Ask(HostQuery::Whoami)));
    match evaluate("uname -a") {
        Reply::Ask(HostQuery::Uname(args)) => assert_eq!(args, vec!["-a".to_string()]),
        other => panic!("unexpected {:?}", other),
    }
    assert!(matches!(parse_line("echo x"), Request::Run(Builtin::Echo, _)));
    assert_eq!(Builtin::from_name("uname"), Some(Builtin::Uname));
    assert_eq!(Builtin::from_name("sh"), None);
}

#[test]
fn date_prints_epoch_seconds() {
    assert_eq!(date_output(0).stdout, b"0\n");
    assert_eq!(date_output(1700000000).stdout, b"1700000000\n");
    assert_eq!(date_output(u64::MAX).stdout, b"18446744073709551615\n");
}

#[test]
fn env_prints_key_value_lines() {
    let vars = vec![("A".to_string(), "1".to_string()), ("PATH".to_string(), "/bin".to_string())];
    assert_eq!(env_output(&vars).stdout, b"A=1\nPATH=/bin\n");
    assert!(env_output(&Vec::new()).stdout.is_empty());
}

#[test]
fn whoami_prefers_user_then_command() {
    assert_eq!(whoami_output(Some("ada".to_string()), Some(b"root\n".to_vec())).stdout, b"ada\n");
    assert_eq!(whoami_output(None, Some(b"root\n".to_vec())).stdout, b"root\n");
    let out = whoami_output(None, None);
    assert_eq!(out.exit, Some(1));
    assert_eq!(out.stderr, b"whoami: not available\n");
}

#[test]
fn uname_falls_back_to_system_name() {
    assert_eq!(uname_output(Some(b"Linux\n".to_vec())).stdout, b"Linux\n");
    assert_eq!(uname_output(Some(Vec::new())).stdout, b"OblivionOS\n");
    assert_eq!(uname_output(None).stdout, b"OblivionOS\n");
}

#[test]
fn command_output_constructors() {
    let ok = CommandOutput::ok(b"x".to_vec());
    assert_eq!((ok.stdout.as_slice(), ok.stderr.len(), ok.exit), (&b"x"[..], 0, Some(0)));
    let err = CommandOutput::err(b"bad".to_vec(), 3);
    assert_eq!((err.stdout.len(), err.stderr.as_slice(), err.exit), (0, &b"bad"[..], Some(3)));
    let d = CommandOutput::default();
    assert!(d.stdout.is_empty() && d.stderr.is_empty() && d.exit.is_none());
}

#[test]
fn repl_banner_and_prompt() {
    assert_eq!(
        repl_banner("0.1.0"),
        b"oblivion-terminal v0.1.0\ntype `:help` for the command list, `:exit` to quit\n".to_vec()
    );
    assert_eq!(PROMPT, "obl> ");
    assert_eq!(command_line_bytes("echo hi"), b"echo hi\n".to_vec());
}

#[test]
fn repl_input_classifies_reads() {
    assert!(matches!(repl_input("", 0), ReplInput::Eof));
    assert!(matches!(repl_input("\r\n", 2), ReplInput::Blank));
    match repl_input("echo a \r\n", 9) {
        ReplInput::Line(l) => assert_eq!(l, "echo a "),
        other => panic!("unexpected {:?}", other),
    }
}

#[test]
fn repl_outcome_reports_exit_and_quits_on_exit() {
    let out = done("nonsense");
    let r = repl_outcome(&out, "nonsense");
    assert!(!r.quit);
    assert!(r.bytes.ends_with(b"[exit 127]\n"));
    let bye = done(":exit");
    let r = repl_outcome(&bye, ":exit");
    assert!(r.quit);
    assert_eq!(r.bytes, b"bye\n");
    let neg = CommandOutput::err(Vec::new(), -2);
    assert_eq!(repl_outcome(&neg, "x").bytes, b"[exit -2]\n");
}
