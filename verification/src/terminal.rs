//! The terminal: ANSI escape stripping, built-in REPL commands and the
//! decisions of the interactive loop.

pub mod command;
pub mod parser;

use vstd::prelude::*;
use vstd::string::*;
use vstd::utf8::*;
use crate::text::{decimal, to_decimal, utf8_bytes};
use crate::terminal::command::CommandOutput;

verus! {

#[verifier::external_type_specification]
#[verifier::external_body]
pub struct ExPathBuf(std::path::PathBuf);

/// What the terminal should do when it runs.
#[derive(Debug, Clone)]
pub enum Mode {
    /// Spawn `shell`, write `command`, drain everything the pty produces and
    /// forward it to the caller's writer once.
    Command { shell: String, command: String },
    /// Evaluate lines from the caller's reader through the built-in command
    /// set until `:exit`/`:quit` or end of input.
    Repl,
}

/// All knobs the caller may tune before creating a [`Terminal`].
#[derive(Debug)]
pub struct TerminalConfig {
    pub mode: Mode,
    pub cwd: std::path::PathBuf,
    pub cols: u16,
    pub rows: u16,
}

/// A terminal session: its configuration.
pub struct Terminal {
    cfg: TerminalConfig,
}

impl Terminal {
    pub closed spec fn spec_config(&self) -> &TerminalConfig {
        &self.cfg
    }

    pub fn new(cfg: TerminalConfig) -> (t: Self)
        ensures
            t.spec_config() == &cfg,
    {
        Terminal { cfg }
    }

    pub fn config(&self) -> (c: &TerminalConfig)
        ensures
            c == self.spec_config(),
    {
        &self.cfg
    }
}

/// The bytes written to the pty to run `command`: the command and a newline.
pub fn command_line_bytes(command: &str) -> (b: Vec<u8>)
    ensures
        b@ == encode_utf8(command@ + "\n"@),
{
    let mut s = String::from_str(command);
    s.append("\n");
    utf8_bytes(s.as_str())
}

/// The prompt printed before each REPL line.
pub const PROMPT: &'static str = "obl> ";

/// The two lines the REPL prints when it starts.
pub open spec fn banner_text(version: Seq<char>) -> Seq<char> {
    "oblivion-terminal v"@ + version + "\n"@
        + "type `:help` for the command list, `:exit` to quit\n"@
}

/// The REPL's greeting for package version `version`.
pub fn repl_banner(version: &str) -> (b: Vec<u8>)
    ensures
        b@ == encode_utf8(banner_text(version@)),
{
    let mut s = String::from_str("oblivion-terminal v");
    s.append(version);
    s.append("\n");
    s.append("type `:help` for the command list, `:exit` to quit\n");
    utf8_bytes(s.as_str())
}

/// End of `s.subrange(0, j)` once trailing `\n` and `\r` are dropped.
pub open spec fn newline_trim_end(s: Seq<char>, j: int) -> int
    decreases j,
{
    if 0 < j <= s.len() && (s[j - 1] == '\n' || s[j - 1] == '\r') {
        newline_trim_end(s, j - 1)
    } else {
        j
    }
}

/// One read of the REPL's input.
#[derive(Debug, Clone)]
pub enum ReplInput {
    /// Nothing more to read.
    Eof,
    /// An empty line: prompt again.
    Blank,
    /// A line to evaluate, without its line ending.
    Line(String),
}

/// Classify what one `read_line` gave: `n_read` bytes, the text `buf`.
pub fn repl_input(buf: &str, n_read: usize) -> (r: ReplInput)
    ensures
        n_read == 0 ==> r is Eof,
        n_read != 0 ==> {
            let e = newline_trim_end(buf@, buf@.len() as int);
            if e == 0 {
                r is Blank
            } else {
                r matches ReplInput::Line(l) && l@ == buf@.subrange(0, e)
            }
        },
{
    if n_read == 0 {
        return ReplInput::Eof;
    }
    let n = buf.unicode_len();
    let mut e: usize = n;
    while e > 0 && (buf.get_char(e - 1) == '\n' || buf.get_char(e - 1) == '\r')
        invariant
            n == buf@.len(),
            e <= n,
            newline_trim_end(buf@, n as int) == newline_trim_end(buf@, e as int),
        decreases e,
    {
        e -= 1;
    }
    if e == 0 {
        ReplInput::Blank
    } else {
        ReplInput::Line(String::from_str(buf.substring_char(0, e)))
    }
}

/// `v` written in decimal, with a leading `-` when negative.
pub open spec fn signed_decimal(v: int) -> Seq<char> {
    if v < 0 {
        "-"@ + decimal((-v) as nat)
    } else {
        decimal(v as nat)
    }
}

/// The note the REPL prints after a command with a non-zero exit code.
pub open spec fn exit_note(exit: Option<i32>) -> Seq<u8> {
    match exit {
        Some(c) if c != 0 => encode_utf8("[exit "@ + signed_decimal(c as int) + "]\n"@),
        _ => Seq::empty(),
    }
}

/// What the REPL writes after evaluating a line, and whether it stops.
pub struct ReplOutcome {
    pub bytes: Vec<u8>,
    pub quit: bool,
}

fn exit_note_bytes(exit: Option<i32>) -> (b: Vec<u8>)
    ensures
        b@ == exit_note(exit),
{
    match exit {
        Some(c) => {
            if c != 0 {
                let mut s = String::from_str("[exit ");
                if c < 0 {
                    s.append("-");
                    let m = to_decimal((-(c as i64)) as u64);
                    s.append(m.as_str());
                    assert(s@ =~= "[exit "@ + signed_decimal(c as int));
                } else {
                    let m = to_decimal(c as u64);
                    s.append(m.as_str());
                }
                s.append("]\n");
                assert(s@ =~= "[exit "@ + signed_decimal(c as int) + "]\n"@);
                utf8_bytes(s.as_str())
            } else {
                Vec::new()
            }
        },
        None => Vec::new(),
    }
}

/// After `line` evaluated to `out`: the output, the error output and the
/// exit note in that order; the REPL stops when the command reported an
/// exit code and the line is exactly `:exit` or `:quit`.
pub fn repl_outcome(out: &CommandOutput, line: &str) -> (r: ReplOutcome)
    ensures
        r.bytes@ == out.stdout@ + out.stderr@ + exit_note(out.exit),
        r.quit == (out.exit.is_some() && (line@ == ":exit"@ || line@ == ":quit"@)),
{
    let mut bytes: Vec<u8> = Vec::new();
    bytes.extend_from_slice(out.stdout.as_slice());
    bytes.extend_from_slice(out.stderr.as_slice());
    let note = exit_note_bytes(out.exit);
    bytes.extend_from_slice(note.as_slice());
    let quit = out.exit.is_some() && (crate::text::same_text(line, ":exit")
        || crate::text::same_text(line, ":quit"));
    ReplOutcome { bytes, quit }
}

} // verus!
