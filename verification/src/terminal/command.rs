//! Built-in REPL commands of the terminal.
//!
//! A typed line is first parsed into a [`Request`]; [`respond`] answers
//! every request that needs nothing from the host system and names, as a
//! [`HostQuery`], what it needs otherwise. The `*_output` functions turn
//! the host's answer into the user-facing [`CommandOutput`].

use vstd::prelude::*;
use vstd::string::*;
use vstd::utf8::*;
use crate::text::{decimal, same_text, split_words, to_decimal, trim, trimmed, utf8_bytes, views, words};

verus! {

/// Output of evaluating one REPL line.
#[derive(Debug, Clone)]
pub struct CommandOutput {
    pub stdout: Vec<u8>,
    pub stderr: Vec<u8>,
    pub exit: Option<i32>,
}

impl CommandOutput {
    /// A successful output: `stdout`, nothing on stderr, exit code 0.
    pub fn ok(stdout: Vec<u8>) -> (r: Self)
        ensures
            r.stdout@ == stdout@,
            r.stderr@ == Seq::<u8>::empty(),
            r.exit == Some(0i32),
    {
        CommandOutput { stdout, stderr: Vec::new(), exit: Some(0) }
    }

    /// A failed output: nothing on stdout, `stderr`, exit code `code`.
    pub fn err(stderr: Vec<u8>, code: i32) -> (r: Self)
        ensures
            r.stdout@ == Seq::<u8>::empty(),
            r.stderr@ == stderr@,
            r.exit == Some(code),
    {
        CommandOutput { stdout: Vec::new(), stderr, exit: Some(code) }
    }
}

impl Default for CommandOutput {
    fn default() -> (r: Self)
        ensures
            r.stdout@ == Seq::<u8>::empty(),
            r.stderr@ == Seq::<u8>::empty(),
            r.exit.is_none(),
    {
        CommandOutput { stdout: Vec::new(), stderr: Vec::new(), exit: None }
    }
}

/// The list printed by `:help`.
pub const HELP: &'static str = "built-in commands (run in `--repl` mode or interactively):
  echo <text>   print arguments
  pwd           print current working directory
  ls [path]     list entries in a directory (defaults to cwd)
  cat <files>   print file contents
  date          print seconds since UNIX epoch
  env           print environment variables
  whoami        print the current user
  uname         print the operating system name
  clear         emit a clear-screen ANSI sequence (no effect on plain stdout)
  :help / :?    this list
  :version / :v print the version
  :exit / :quit leave the REPL
";

/// What `cd` with an argument reports on stderr.
pub const CD_NOTE: &'static str = "obl: cd is informational in oblivion-terminal's built-in REPL; spawn /bin/sh for a real shell\n";

/// What `history` prints.
pub const HISTORY_NOTE: &'static str = "(inline REPL: no command history persistence in v0.1.0)\n";

/// What `clear` prints: erase the screen, move the cursor home.
pub const CLEAR_SEQUENCE: &'static str = "\x1b[2J\x1b[H";

/// What `cat` without operands reports on stderr.
pub const CAT_MISSING: &'static str = "cat: missing operand\n";

/// What `whoami` reports when the user cannot be found.
pub const WHOAMI_UNAVAILABLE: &'static str = "whoami: not available\n";

/// What `uname` prints when the host command gives nothing.
pub const UNAME_FALLBACK: &'static str = "OblivionOS\n";

/// The commands the REPL knows by name.
#[derive(Debug, Clone, Copy, PartialEq, Eq, Structural)]
pub enum Builtin {
    Echo,
    Pwd,
    Cd,
    Ls,
    Cat,
    Date,
    Env,
    Whoami,
    Uname,
    History,
    Clear,
}

/// The built-in command called `n`, if any.
pub open spec fn builtin_named(n: Seq<char>) -> Option<Builtin> {
    if n == "echo"@ {
        Some(Builtin::Echo)
    } else if n == "pwd"@ {
        Some(Builtin::Pwd)
    } else if n == "cd"@ {
        Some(Builtin::Cd)
    } else if n == "ls"@ {
        Some(Builtin::Ls)
    } else if n == "cat"@ {
        Some(Builtin::Cat)
    } else if n == "date"@ {
        Some(Builtin::Date)
    } else if n == "env"@ {
        Some(Builtin::Env)
    } else if n == "whoami"@ {
        Some(Builtin::Whoami)
    } else if n == "uname"@ {
        Some(Builtin::Uname)
    } else if n == "history"@ {
        Some(Builtin::History)
    } else if n == "clear"@ {
        Some(Builtin::Clear)
    } else {
        None
    }
}

impl Builtin {
    /// The built-in command called `name`, if any.
    pub fn from_name(name: &str) -> (r: Option<Builtin>)
        ensures
            r == builtin_named(name@),
    {
        if same_text(name, "echo") {
            Some(Builtin::Echo)
        } else if same_text(name, "pwd") {
            Some(Builtin::Pwd)
        } else if same_text(name, "cd") {
            Some(Builtin::Cd)
        } else if same_text(name, "ls") {
            Some(Builtin::Ls)
        } else if same_text(name, "cat") {
            Some(Builtin::Cat)
        } else if same_text(name, "date") {
            Some(Builtin::Date)
        } else if same_text(name, "env") {
            Some(Builtin::Env)
        } else if same_text(name, "whoami") {
            Some(Builtin::Whoami)
        } else if same_text(name, "uname") {
            Some(Builtin::Uname)
        } else if same_text(name, "history") {
            Some(Builtin::History)
        } else if same_text(name, "clear") {
            Some(Builtin::Clear)
        } else {
            None
        }
    }
}

/// One parsed REPL line.
#[derive(Debug, Clone)]
pub enum Request {
    /// `:exit` or `:quit`.
    Exit,
    /// `:help` or `:?`.
    Help,
    /// `:version` or `:v`.
    Version,
    /// Any other `:` line; holds the text after the colon.
    UnknownMeta(String),
    /// A line with nothing but whitespace.
    Empty,
    /// A known command with its arguments.
    Run(Builtin, Vec<String>),
    /// An unknown command name.
    NotFound(String),
}

/// `r` is what the line `line` parses to.
pub open spec fn parses_to(line: Seq<char>, r: Request) -> bool {
    let t = trimmed(line);
    if t.len() > 0 && t[0] == ':' {
        let rest = t.skip(1);
        if rest == "exit"@ || rest == "quit"@ {
            r is Exit
        } else if rest == "help"@ || rest == "?"@ {
            r is Help
        } else if rest == "version"@ || rest == "v"@ {
            r is Version
        } else {
            r matches Request::UnknownMeta(m) && m@ == rest
        }
    } else {
        let w = words(t);
        if w.len() == 0 {
            r is Empty
        } else {
            match builtin_named(w[0]) {
                Some(b) => r matches Request::Run(b2, args) && b2 == b && views(args@) == w.skip(1),
                None => r matches Request::NotFound(n) && n@ == w[0],
            }
        }
    }
}

/// Parse one REPL line (without its newline).
pub fn parse_line(line: &str) -> (r: Request)
    ensures
        parses_to(line@, r),
{
    let t = trim(line);
    let ts = t.as_str();
    let n = ts.unicode_len();
    if n > 0 && ts.get_char(0) == ':' {
        let rest = ts.substring_char(1, n);
        assert(rest@ == trimmed(line@).skip(1));
        if same_text(rest, "exit") || same_text(rest, "quit") {
            Request::Exit
        } else if same_text(rest, "help") || same_text(rest, "?") {
            Request::Help
        } else if same_text(rest, "version") || same_text(rest, "v") {
            Request::Version
        } else {
            Request::UnknownMeta(String::from_str(rest))
        }
    } else {
        let mut w = split_words(ts);
        if w.len() == 0 {
            Request::Empty
        } else {
            let ghost all = w@;
            let name = w.remove(0);
            assert(w@ =~= all.skip(1));
            assert(views(w@) =~= views(all).skip(1));
            match Builtin::from_name(name.as_str()) {
                Some(b) => Request::Run(b, w),
                None => Request::NotFound(name),
            }
        }
    }
}

/// Why a line could not be evaluated.
#[derive(Debug, Clone)]
pub enum CommandError {
    /// A `:` command that does not exist; holds the text after the colon.
    UnknownBuiltin(String),
}

impl CommandError {
    /// The message shown to the user.
    pub fn message(&self) -> (s: String)
        ensures
            match self {
                CommandError::UnknownBuiltin(m) => s@ == "unknown built-in: `:"@ + m@
                    + "` (type `:help` for the list)"@,
            },
    {
        match self {
            CommandError::UnknownBuiltin(m) => {
                let mut s = String::from_str("unknown built-in: `:");
                s.append(m.as_str());
                s.append("` (type `:help` for the list)");
                s
            },
        }
    }
}

/// What the host system must provide to answer a request.
#[derive(Debug, Clone)]
pub enum HostQuery {
    /// The canonical working directory.
    Pwd,
    /// The entry names of a directory: the given path, or the working directory.
    Ls(Option<String>),
    /// The contents of each named file, in order.
    Cat(Vec<String>),
    /// The seconds since the UNIX epoch.
    Date,
    /// The environment variables.
    Env,
    /// The current user.
    Whoami,
    /// The output of the host `uname` with these arguments.
    Uname(Vec<String>),
}

/// The answer to a request, or what the host must provide first.
#[derive(Debug)]
pub enum Reply {
    Done(Result<CommandOutput, CommandError>),
    Ask(HostQuery),
}

/// `r` is a success that prints `text`.
pub open spec fn prints(r: Reply, text: Seq<char>) -> bool {
    r matches Reply::Done(Ok(o)) && o.stdout@ == encode_utf8(text) && o.stderr@
        == Seq::<u8>::empty() && o.exit == Some(0i32)
}

/// `r` is a failure that reports `text` on stderr with exit code `code`.
pub open spec fn reports(r: Reply, text: Seq<char>, code: i32) -> bool {
    r matches Reply::Done(Ok(o)) && o.stdout@ == Seq::<u8>::empty() && o.stderr@ == encode_utf8(
        text,
    ) && o.exit == Some(code)
}

/// `ws` joined with `sep` between consecutive elements.
pub open spec fn joined(ws: Seq<Seq<char>>, sep: Seq<char>) -> Seq<char>
    decreases ws.len(),
{
    if ws.len() == 0 {
        Seq::empty()
    } else if ws.len() == 1 {
        ws[0]
    } else {
        joined(ws.drop_last(), sep) + sep + ws.last()
    }
}

/// The total length of the strings of `ws`.
pub open spec fn total_len(ws: Seq<Seq<char>>) -> int
    decreases ws.len(),
{
    if ws.len() == 0 {
        0
    } else {
        total_len(ws.drop_last()) + ws.last().len()
    }
}

/// Appending a string to a non-empty list adds the separator and that
/// string to the end of the joined text; joining two non-empty lists
/// joins their joined texts with one separator.
pub proof fn lemma_joined_append(ws: Seq<Seq<char>>, vs: Seq<Seq<char>>, sep: Seq<char>)
    requires
        ws.len() > 0,
    ensures
        forall|x: Seq<char>| #[trigger] joined(ws.push(x), sep) == joined(ws, sep) + sep + x,
        vs.len() > 0 ==> joined(ws + vs, sep) == joined(ws, sep) + sep + joined(vs, sep),
    decreases vs.len(),
{
    assert forall|x: Seq<char>| #[trigger] joined(ws.push(x), sep) == joined(ws, sep) + sep + x by {
        assert(ws.push(x).drop_last() =~= ws);
    }
    if vs.len() == 1 {
        assert(ws + vs =~= ws.push(vs[0]));
    } else if vs.len() > 1 {
        let d = vs.drop_last();
        lemma_joined_append(ws, d, sep);
        assert(ws + vs =~= (ws + d).push(vs.last()));
        assert((ws + d).push(vs.last()).drop_last() =~= ws + d);
        assert(vs.drop_last() =~= d);
        assert(joined(ws, sep) + sep + (joined(d, sep) + sep + vs.last()) =~= joined(ws, sep) + sep
            + joined(d, sep) + sep + vs.last());
    }
}

/// The joined text holds every string and one separator between each two:
/// its length is the strings' total length plus the separators'.
pub proof fn lemma_joined_len(ws: Seq<Seq<char>>, sep: Seq<char>)
    requires
        ws.len() > 0,
    ensures
        joined(ws, sep).len() == total_len(ws) + (ws.len() - 1) * sep.len(),
    decreases ws.len(),
{
    if ws.len() > 1 {
        lemma_joined_len(ws.drop_last(), sep);
        assert((ws.len() - 2) * sep.len() + sep.len() == (ws.len() - 1) * sep.len()) by (nonlinear_arith);
    } else {
        assert(ws.drop_last().len() == 0);
        assert(total_len(ws.drop_last()) == 0);
        assert((ws.len() - 1) * sep.len() == 0) by (nonlinear_arith)
            requires
                ws.len() == 1,
        ;
    }
}

/// The joined text starts with the first string and ends with the last,
/// each followed or preceded by the separator when there are more.
pub proof fn lemma_joined_ends(ws: Seq<Seq<char>>, sep: Seq<char>)
    requires
        ws.len() > 0,
    ensures
        joined(ws, sep).subrange(0, ws[0].len() as int) == ws[0],
        joined(ws, sep).subrange(joined(ws, sep).len() - ws.last().len(), joined(ws, sep).len() as int)
            == ws.last(),
    decreases ws.len(),
{
    lemma_joined_len(ws, sep);
    if ws.len() > 1 {
        let d = ws.drop_last();
        lemma_joined_ends(d, sep);
        let j = joined(d, sep);
        assert(joined(ws, sep) == j + sep + ws.last());
        assert(d[0] == ws[0]);
        lemma_joined_len(d, sep);
        assert(j.len() >= ws[0].len()) by {
            lemma_total_len_ge(d, 0);
            assert((d.len() - 1) * sep.len() >= 0) by (nonlinear_arith)
                requires
                    d.len() >= 1,
            ;
        }
        assert((j + sep + ws.last()).subrange(0, ws[0].len() as int) =~= j.subrange(0, ws[0].len() as int));
        assert((j + sep + ws.last()).subrange(
            (j + sep + ws.last()).len() - ws.last().len(),
            (j + sep + ws.last()).len() as int,
        ) =~= ws.last());
    }
}

proof fn lemma_total_len_ge(ws: Seq<Seq<char>>, i: int)
    requires
        0 <= i < ws.len(),
    ensures
        total_len(ws) >= ws[i].len(),
    decreases ws.len(),
{
    if i < ws.len() - 1 {
        lemma_total_len_ge(ws.drop_last(), i);
    } else {
        lemma_total_len_nonneg(ws.drop_last());
    }
}

proof fn lemma_total_len_nonneg(ws: Seq<Seq<char>>)
    ensures
        total_len(ws) >= 0,
    decreases ws.len(),
{
    if ws.len() > 0 {
        lemma_total_len_nonneg(ws.drop_last());
    }
}

/// The strings of `ws` joined with single spaces.
pub fn join_with_spaces(ws: &Vec<String>) -> (s: String)
    ensures
        s@ == joined(views(ws@), " "@),
{
    let mut s = String::new();
    let mut i: usize = 0;
    while i < ws.len()
        invariant
            i <= ws.len(),
            s@ == joined(views(ws@.subrange(0, i as int)), " "@),
        decreases ws.len() - i,
    {
        let ghost before = ws@.subrange(0, i as int);
        if i > 0 {
            s.append(" ");
        }
        s.append(ws[i].as_str());
        proof {
            let after = ws@.subrange(0, i + 1);
            assert(after.drop_last() =~= before);
            assert(views(after).drop_last() =~= views(before));
            if i == 0 {
                assert(views(before) =~= Seq::<Seq<char>>::empty());
            }
        }
        i += 1;
    }
    assert(ws@.subrange(0, ws.len() as int) =~= ws@);
    s
}

fn text_reply(s: &str) -> (r: Reply)
    ensures
        prints(r, s@),
{
    Reply::Done(Ok(CommandOutput::ok(utf8_bytes(s))))
}

fn error_reply(s: &str, code: i32) -> (r: Reply)
    ensures
        reports(r, s@, code),
{
    Reply::Done(Ok(CommandOutput::err(utf8_bytes(s), code)))
}

/// Answer `req` where nothing from the host is needed; `cwd` is how the
/// working directory is displayed and `version` the package version.
pub fn respond(req: Request, cwd: &str, version: &str) -> (r: Reply)
    ensures
        match req {
            Request::Exit => prints(r, "bye\n"@),
            Request::Help => prints(r, HELP@),
            Request::Version => prints(r, "oblivion-terminal "@ + version@ + "\n"@),
            Request::UnknownMeta(m) => r matches Reply::Done(Err(CommandError::UnknownBuiltin(
                e,
            ))) && e@ == m@,
            Request::Empty => prints(r, Seq::empty()),
            Request::NotFound(n) => reports(
                r,
                "obl: command not found: `"@ + n@
                    + "` (try `:help` for built-ins or use a real shell)\n"@,
                127,
            ),
            Request::Run(b, args) => match b {
                Builtin::Echo => prints(r, joined(views(args@), " "@) + "\n"@),
                Builtin::Pwd => r matches Reply::Ask(HostQuery::Pwd),
                Builtin::Cd => if args@.len() == 0 {
                    prints(r, cwd@ + "\n"@)
                } else {
                    reports(r, CD_NOTE@, 1)
                },
                Builtin::Ls => r matches Reply::Ask(HostQuery::Ls(p)) && (if args@.len() == 0 {
                    p is None
                } else {
                    p matches Some(d) && d@ == args@[0]@
                }),
                Builtin::Cat => if args@.len() == 0 {
                    reports(r, CAT_MISSING@, 1)
                } else {
                    r matches Reply::Ask(HostQuery::Cat(files)) && views(files@) == views(args@)
                },
                Builtin::Date => r matches Reply::Ask(HostQuery::Date),
                Builtin::Env => r matches Reply::Ask(HostQuery::Env),
                Builtin::Whoami => r matches Reply::Ask(HostQuery::Whoami),
                Builtin::Uname => r matches Reply::Ask(HostQuery::Uname(a)) && views(a@) == views(
                    args@,
                ),
                Builtin::History => prints(r, HISTORY_NOTE@),
                Builtin::Clear => prints(r, CLEAR_SEQUENCE@),
            },
        },
{
    match req {
        Request::Exit => text_reply("bye\n"),
        Request::Help => text_reply(HELP),
        Request::Version => {
            let mut s = String::from_str("oblivion-terminal ");
            s.append(version);
            s.append("\n");
            text_reply(s.as_str())
        },
        Request::UnknownMeta(m) => Reply::Done(Err(CommandError::UnknownBuiltin(m))),
        Request::Empty => {
            proof {
                assert(encode_utf8(Seq::<char>::empty()) =~= Seq::<u8>::empty()) by {
                    reveal_with_fuel(encode_utf8, 1);
                }
            }
            Reply::Done(Ok(CommandOutput::ok(Vec::new())))
        },
        Request::NotFound(n) => {
            let mut s = String::from_str("obl: command not found: `");
            s.append(n.as_str());
            s.append("` (try `:help` for built-ins or use a real shell)\n");
            error_reply(s.as_str(), 127)
        },
        Request::Run(b, mut args) => match b {
            Builtin::Echo => {
                let mut s = join_with_spaces(&args);
                s.append("\n");
                text_reply(s.as_str())
            },
            Builtin::Pwd => Reply::Ask(HostQuery::Pwd),
            Builtin::Cd => {
                if args.len() == 0 {
                    let mut s = String::from_str(cwd);
                    s.append("\n");
                    text_reply(s.as_str())
                } else {
                    error_reply(CD_NOTE, 1)
                }
            },
            Builtin::Ls => {
                if args.len() == 0 {
                    Reply::Ask(HostQuery::Ls(None))
                } else {
                    let first = args.remove(0);
                    Reply::Ask(HostQuery::Ls(Some(first)))
                }
            },
            Builtin::Cat => {
                if args.len() == 0 {
                    error_reply(CAT_MISSING, 1)
                } else {
                    Reply::Ask(HostQuery::Cat(args))
                }
            },
            Builtin::Date => Reply::Ask(HostQuery::Date),
            Builtin::Env => Reply::Ask(HostQuery::Env),
            Builtin::Whoami => Reply::Ask(HostQuery::Whoami),
            Builtin::Uname => Reply::Ask(HostQuery::Uname(args)),
            Builtin::History => text_reply(HISTORY_NOTE),
            Builtin::Clear => text_reply(CLEAR_SEQUENCE),
        },
    }
}

/// Each of `names` followed by a newline, all concatenated.
pub open spec fn lines_of(names: Seq<Seq<u8>>) -> Seq<u8>
    decreases names.len(),
{
    if names.len() == 0 {
        Seq::empty()
    } else {
        lines_of(names.drop_last()) + names.last() + seq![10u8]
    }
}

/// All of `parts`, concatenated in order.
pub open spec fn concat_bytes(parts: Seq<Seq<u8>>) -> Seq<u8>
    decreases parts.len(),
{
    if parts.len() == 0 {
        Seq::empty()
    } else {
        concat_bytes(parts.drop_last()) + parts.last()
    }
}

/// The byte views of a list of byte vectors.
pub open spec fn byte_views(v: Seq<Vec<u8>>) -> Seq<Seq<u8>> {
    v.map_values(|x: Vec<u8>| x@)
}

/// One `KEY=value` line per variable, in order.
pub open spec fn env_text(vars: Seq<(Seq<char>, Seq<char>)>) -> Seq<char>
    decreases vars.len(),
{
    if vars.len() == 0 {
        Seq::empty()
    } else {
        env_text(vars.drop_last()) + vars.last().0 + "="@ + vars.last().1 + "\n"@
    }
}

/// The character views of a list of string pairs.
pub open spec fn pair_views(v: Seq<(String, String)>) -> Seq<(Seq<char>, Seq<char>)> {
    v.map_values(|p: (String, String)| (p.0@, p.1@))
}

/// `o` is a success printing exactly `bytes`.
pub open spec fn prints_bytes(o: CommandOutput, bytes: Seq<u8>) -> bool {
    o.stdout@ == bytes && o.stderr@ == Seq::<u8>::empty() && o.exit == Some(0i32)
}

/// `pwd`: the canonical working directory, then a newline.
pub fn pwd_output(dir: &str) -> (o: CommandOutput)
    ensures
        prints_bytes(o, encode_utf8(dir@ + "\n"@)),
{
    let mut s = String::from_str(dir);
    s.append("\n");
    CommandOutput::ok(utf8_bytes(s.as_str()))
}

/// `ls`: each entry name on a line of its own.
pub fn ls_output(names: &Vec<Vec<u8>>) -> (o: CommandOutput)
    ensures
        prints_bytes(o, lines_of(byte_views(names@))),
{
    let mut out: Vec<u8> = Vec::new();
    let mut i: usize = 0;
    while i < names.len()
        invariant
            i <= names.len(),
            out@ == lines_of(byte_views(names@.subrange(0, i as int))),
        decreases names.len() - i,
    {
        let ghost before = names@.subrange(0, i as int);
        out.extend_from_slice(names[i].as_slice());
        out.push(10u8);
        proof {
            let after = names@.subrange(0, i + 1);
            assert(byte_views(after).drop_last() =~= byte_views(before));
        }
        i += 1;
    }
    assert(names@.subrange(0, names.len() as int) =~= names@);
    CommandOutput::ok(out)
}

/// `cat`: the contents of every file, in order.
pub fn cat_output(contents: &Vec<Vec<u8>>) -> (o: CommandOutput)
    ensures
        prints_bytes(o, concat_bytes(byte_views(contents@))),
{
    let mut out: Vec<u8> = Vec::new();
    let mut i: usize = 0;
    while i < contents.len()
        invariant
            i <= contents.len(),
            out@ == concat_bytes(byte_views(contents@.subrange(0, i as int))),
        decreases contents.len() - i,
    {
        let ghost before = contents@.subrange(0, i as int);
        out.extend_from_slice(contents[i].as_slice());
        proof {
            let after = contents@.subrange(0, i + 1);
            assert(byte_views(after).drop_last() =~= byte_views(before));
        }
        i += 1;
    }
    assert(contents@.subrange(0, contents.len() as int) =~= contents@);
    CommandOutput::ok(out)
}

/// `date`: the seconds since the UNIX epoch in decimal, then a newline.
pub fn date_output(secs: u64) -> (o: CommandOutput)
    ensures
        prints_bytes(o, encode_utf8(decimal(secs as nat) + "\n"@)),
{
    let mut s = to_decimal(secs);
    s.append("\n");
    CommandOutput::ok(utf8_bytes(s.as_str()))
}

/// `env`: one `KEY=value` line per variable, in the order given.
pub fn env_output(vars: &Vec<(String, String)>) -> (o: CommandOutput)
    ensures
        prints_bytes(o, encode_utf8(env_text(pair_views(vars@)))),
{
    let mut s = String::new();
    let mut i: usize = 0;
    while i < vars.len()
        invariant
            i <= vars.len(),
            s@ == env_text(pair_views(vars@.subrange(0, i as int))),
        decreases vars.len() - i,
    {
        let ghost before = vars@.subrange(0, i as int);
        s.append(vars[i].0.as_str());
        s.append("=");
        s.append(vars[i].1.as_str());
        s.append("\n");
        proof {
            let after = vars@.subrange(0, i + 1);
            assert(pair_views(after).drop_last() =~= pair_views(before));
        }
        i += 1;
    }
    assert(vars@.subrange(0, vars.len() as int) =~= vars@);
    CommandOutput::ok(utf8_bytes(s.as_str()))
}

/// `whoami`: the `USER` variable when set; otherwise what the host
/// `whoami` command printed, when it could be run; otherwise a failure.
pub fn whoami_output(user: Option<String>, command_stdout: Option<Vec<u8>>) -> (o: CommandOutput)
    ensures
        match user {
            Some(u) => prints_bytes(o, encode_utf8(u@ + "\n"@)),
            None => match command_stdout {
                Some(b) => prints_bytes(o, b@),
                None => o.stdout@ == Seq::<u8>::empty() && o.stderr@ == encode_utf8(
                    WHOAMI_UNAVAILABLE@,
                ) && o.exit == Some(1i32),
            },
        },
{
    match user {
        Some(u) => {
            let mut s = u;
            s.append("\n");
            CommandOutput::ok(utf8_bytes(s.as_str()))
        },
        None => match command_stdout {
            Some(b) => CommandOutput::ok(b),
            None => CommandOutput::err(utf8_bytes(WHOAMI_UNAVAILABLE), 1),
        },
    }
}

/// `uname`: what the host `uname` printed, unless it could not be run or
/// printed nothing, in which case the system's own name.
pub fn uname_output(command_stdout: Option<Vec<u8>>) -> (o: CommandOutput)
    ensures
        match command_stdout {
            Some(b) if b@.len() > 0 => prints_bytes(o, b@),
            _ => prints_bytes(o, encode_utf8(UNAME_FALLBACK@)),
        },
{
    match command_stdout {
        Some(b) => {
            if b.len() > 0 {
                CommandOutput::ok(b)
            } else {
                CommandOutput::ok(utf8_bytes(UNAME_FALLBACK))
            }
        },
        None => CommandOutput::ok(utf8_bytes(UNAME_FALLBACK)),
    }
}

} // verus!
