//! Terminal sessions, and the command line that runs a command in a shell.
//! Running it is the caller's business.

use vstd::prelude::*;
use vstd::string::StringExecFns;
use crate::error::{AppError, AppResult};
use crate::ids::{fresh_id, is_id};
use crate::resolver::Platform;
use crate::settings::starts_with;
use crate::text::{
    chars_of, decimal, lowercase_of, matches_at, push_decimal, push_text, same_text, texts, trim,
    trimmed,
};
use crate::textmap::TextMap;

verus! {

/// The working directory of a session that is given none.
pub const DEFAULT_CWD: &'static str = ".";

/// A program and the arguments to start it with.
#[derive(Clone, Debug, PartialEq, Eq)]
pub struct CommandLine {
    pub program: String,
    pub args: Vec<String>,
}

/// The program and the arguments that run `command_line` in a shell, by the
/// trimmed and lower-cased name `shell` of the shell; `None` for a shell that
/// the platform does not offer.
///
/// On POSIX, `bash`, `zsh` and `sh` run the command as a login shell. On
/// Windows, every name that starts with `powershell`, and `pwsh`, stand for
/// PowerShell, and `cmd` and `cmd.exe` for the command interpreter.
pub open spec fn shell_invocation(platform: Platform, shell: Seq<char>, command_line: Seq<char>) -> Option<
    (Seq<char>, Seq<Seq<char>>),
> {
    match platform {
        Platform::Posix => if shell == "bash"@ || shell == "zsh"@ || shell == "sh"@ {
            Some((shell, seq!["-lc"@, command_line]))
        } else {
            None
        },
        Platform::Windows => if starts_with(shell, "powershell"@) || shell == "pwsh"@ {
            Some(
                (
                    "powershell.exe"@,
                    seq!["-NoLogo"@, "-NoProfile"@, "-Command"@, command_line],
                ),
            )
        } else if shell == "cmd"@ || shell == "cmd.exe"@ {
            Some(("cmd.exe"@, seq!["/C"@, command_line]))
        } else {
            None
        },
    }
}

/// The words that refuse a shell on `platform`.
pub open spec fn unsupported_shell_words(platform: Platform) -> Seq<char> {
    match platform {
        Platform::Posix => "Unsupported shell on Unix-like system: "@,
        Platform::Windows => "Unsupported shell on Windows: "@,
    }
}

/// Builds the command line that runs `command_line` in the shell whose
/// normalised name is `shell_norm`. A shell that the platform does not offer
/// is refused with a process error that names `shell`, the name as given.
pub fn command_for_shell(
    platform: Platform,
    shell_norm: &str,
    shell: &str,
    command_line: &str,
) -> (command: AppResult<CommandLine>)
    ensures
        match shell_invocation(platform, shell_norm@, command_line@) {
            Some((program, args)) => command matches Ok(c) && c.program@ == program && texts(
                c.args@,
            ) == args,
            None => command matches Err(AppError::ProcessError(detail)) && detail@
                == unsupported_shell_words(platform) + shell@,
        },
{
    let mut args: Vec<String> = Vec::new();
    assert(texts(args@) =~= Seq::<Seq<char>>::empty());
    match platform {
        Platform::Posix => {
            if same_text(shell_norm, "bash") || same_text(shell_norm, "zsh") || same_text(
                shell_norm,
                "sh",
            ) {
                push_text(&mut args, "-lc".to_owned());
                push_text(&mut args, command_line.to_owned());
                assert(texts(args@) =~= seq!["-lc"@, command_line@]);
                Ok(CommandLine { program: shell_norm.to_owned(), args })
            } else {
                let mut detail = "Unsupported shell on Unix-like system: ".to_owned();
                detail.append(shell);
                Err(AppError::ProcessError(detail))
            }
        },
        Platform::Windows => {
            let norm = chars_of(shell_norm);
            if matches_at(&norm, &chars_of("powershell"), 0) || same_text(shell_norm, "pwsh") {
                push_text(&mut args, "-NoLogo".to_owned());
                push_text(&mut args, "-NoProfile".to_owned());
                push_text(&mut args, "-Command".to_owned());
                push_text(&mut args, command_line.to_owned());
                assert(texts(args@) =~= seq![
                    "-NoLogo"@,
                    "-NoProfile"@,
                    "-Command"@,
                    command_line@,
                ]);
                Ok(CommandLine { program: "powershell.exe".to_owned(), args })
            } else if same_text(shell_norm, "cmd") || same_text(shell_norm, "cmd.exe") {
                push_text(&mut args, "/C".to_owned());
                push_text(&mut args, command_line.to_owned());
                assert(texts(args@) =~= seq!["/C"@, command_line@]);
                Ok(CommandLine { program: "cmd.exe".to_owned(), args })
            } else {
                let mut detail = "Unsupported shell on Windows: ".to_owned();
                detail.append(shell);
                Err(AppError::ProcessError(detail))
            }
        },
    }
}

/// Builds the command line that runs `command_line` in the shell that the
/// caller picked. The name of the shell is trimmed and lower-cased first.
pub fn shell_command(platform: Platform, shell: &str, command_line: &str) -> (command: AppResult<
    CommandLine,
>)
    ensures
        match shell_invocation(platform, lowercase_of(trim(shell@)), command_line@) {
            Some((program, args)) => command matches Ok(c) && c.program@ == program && texts(
                c.args@,
            ) == args,
            None => command matches Err(AppError::ProcessError(detail)) && detail@
                == unsupported_shell_words(platform) + shell@,
        },
{
    let norm = trimmed(shell).as_str().to_lowercase();
    command_for_shell(platform, norm.as_str(), shell, command_line)
}

/// A terminal session.
#[derive(Clone, Debug, PartialEq, Eq)]
pub struct TerminalSession {
    /// Session ID
    pub id: String,
    /// Session name
    pub name: String,
    /// Working directory
    pub cwd: String,
}

impl TerminalSession {
    /// A session with a fresh id.
    pub fn new(name: String, cwd: String) -> (session: Self)
        ensures
            is_id(session.id@),
            session.name == name,
            session.cwd == cwd,
    {
        TerminalSession { id: fresh_id(), name, cwd }
    }
}

/// The name of the `n`-th terminal that is given none.
pub open spec fn default_session_name(n: nat) -> Seq<char> {
    "Terminal "@ + decimal(n)
}

/// The terminal sessions that are open, by id.
#[derive(Debug)]
pub struct TerminalService {
    sessions: TextMap<TerminalSession>,
}

impl View for TerminalService {
    type V = Map<Seq<char>, TerminalSession>;

    closed spec fn view(&self) -> Map<Seq<char>, TerminalSession> {
        self.sessions@
    }
}

impl TerminalService {
    /// Each session is listed once, under its own id.
    pub closed spec fn wf(&self) -> bool {
        &&& self.sessions.wf()
        &&& forall|id: Seq<char>| #[trigger]
            self.sessions@.dom().contains(id) ==> self.sessions@[id].id@ == id
    }

    /// A service without sessions.
    pub fn new() -> (service: Self)
        ensures
            service.wf(),
            service@ == Map::<Seq<char>, TerminalSession>::empty(),
    {
        TerminalService { sessions: TextMap::new() }
    }

    /// The number of open sessions.
    pub fn session_count(&self) -> (n: usize)
        requires
            self.wf(),
        ensures
            n == self@.dom().len(),
    {
        self.sessions.len()
    }

    /// Opens a session named `name`, or "Terminal" and the number of
    /// sessions then open where no name is given, in the directory `cwd`, or
    /// in `.`. Returns the id of the session. Only a session that needs a
    /// number that the machine cannot count to is refused.
    pub fn create_session(&mut self, name: Option<String>, cwd: Option<String>) -> (id: AppResult<
        String,
    >)
        requires
            old(self).wf(),
        ensures
            final(self).wf(),
            name is None && old(self)@.dom().len() >= usize::MAX ==> id is Err && final(self)@
                == old(self)@,
            name is Some || old(self)@.dom().len() < usize::MAX ==> (id matches Ok(key) && is_id(
                key@,
            ) && final(self)@.dom().contains(key@) && final(self)@ == old(self)@.insert(
                key@,
                final(self)@[key@],
            ) && final(self)@[key@].name@ == (match name {
                Some(n) => n@,
                None => default_session_name((old(self)@.dom().len() + 1) as nat),
            }) && final(self)@[key@].cwd@ == (match cwd {
                Some(d) => d@,
                None => DEFAULT_CWD@,
            })),
    {
        let count = self.sessions.len();
        let session_name = match name {
            Some(n) => n,
            None => {
                if count >= usize::MAX {
                    return Err(AppError::ProcessError("Too many terminal sessions".to_owned()));
                }
                let mut text = "Terminal ".to_owned();
                push_decimal(&mut text, (count + 1) as u64);
                text
            },
        };
        let working_dir = match cwd {
            Some(d) => d,
            None => DEFAULT_CWD.to_owned(),
        };
        let session = TerminalSession::new(session_name, working_dir);
        let id = session.id.clone();
        let key = session.id.clone();
        self.sessions.insert(key, session);
        proof {
            assert forall|k: Seq<char>| #[trigger]
                self.sessions@.dom().contains(k) implies self.sessions@[k].id@ == k by {
                if k != id@ {
                    assert(old(self).sessions@.dom().contains(k));
                }
            }
        }
        Ok(id)
    }

    /// Closes the session `session_id`, if it is open. Returns the session
    /// that was closed, so that its process can be ended.
    pub fn kill_session(&mut self, session_id: &str) -> (closed: AppResult<Option<TerminalSession>>)
        requires
            old(self).wf(),
        ensures
            final(self).wf(),
            final(self)@ == old(self)@.remove(session_id@),
            closed matches Ok(s) && match s {
                Some(session) => old(self)@.dom().contains(session_id@) && session == old(
                    self,
                )@[session_id@],
                None => !old(self)@.dom().contains(session_id@),
            },
    {
        Ok(self.sessions.remove(session_id))
    }

    /// The working directory of the session `session_id`, or a process
    /// error if no such session is open.
    pub fn session_cwd(&self, session_id: &str) -> (cwd: AppResult<String>)
        requires
            self.wf(),
        ensures
            self@.dom().contains(session_id@) ==> (cwd matches Ok(d) && d == self@[session_id@].cwd),
            !self@.dom().contains(session_id@) ==> (cwd matches Err(AppError::ProcessError(detail))
                && detail@ == "Session not found: "@ + session_id@),
    {
        match self.sessions.get(session_id) {
            Some(session) => Ok(session.cwd.clone()),
            None => {
                let mut detail = "Session not found: ".to_owned();
                detail.append(session_id);
                Err(AppError::ProcessError(detail))
            },
        }
    }

    /// The ids of the open sessions, each once.
    pub fn get_session_ids(&self) -> (ids: Vec<String>)
        requires
            self.wf(),
        ensures
            forall|id: Seq<char>| self@.dom().contains(id) <==> texts(ids@).contains(id),
            ids.len() == self@.dom().len(),
    {
        let ids = self.sessions.keys();
        let n = self.sessions.len();
        ids
    }
}

} // verus!
