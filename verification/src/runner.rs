//! One invocation of the agent: what is handed to the child process, and
//! what is made of the output it leaves.
//!
//! Spawning the process, feeding its standard input and waiting for it are
//! the caller's business. The library fixes the argument vector and the
//! environment beforehand, and afterwards turns the bytes and the exit code
//! into a result or into an error that carries bounded diagnostics.

use vstd::prelude::*;
use vstd::string::StringExecFns;
use vstd::utf8::{decode_utf8, valid_utf8};
use crate::backend::{BackendNames, BackendTag};
use crate::error::AppError;
use crate::resolver::{ResolutionError, ResolutionFailure};
use crate::text::{
    chars_of, decimal, decimal_string, normalize_newlines, normalized, push_pair, push_text,
    signed_decimal, signed_decimal_string, string_of, substring, text_pairs, texts, trim, trimmed,
};
use crate::trailer::{parse_codeagent_stdout, parsed_output};

verus! {

/// The number of characters of each output stream that an error keeps.
pub const DIAGNOSTIC_TAIL_CHARS: usize = 4000;

/// The exit code reported for a child that ended without one.
pub const MISSING_EXIT_CODE: i32 = -1;

/// What a finished child process left behind.
#[derive(Clone, Debug, PartialEq, Eq)]
pub struct CliExecResult {
    pub stdout: String,
    pub stderr: String,
    pub exit_code: i32,
}

/// The text that `String::from_utf8_lossy` decodes from a run of bytes.
pub uninterp spec fn lossy_text(bytes: Seq<u8>) -> Seq<char>;

/// `String::from_utf8_lossy` decodes bytes as UTF-8 and puts the replacement
/// character in place of each invalid sequence, so it never fails. The text
/// depends on the bytes alone, and valid UTF-8 decodes to the text it encodes.
#[verifier::external_body]
fn decode_lossy(bytes: &[u8]) -> (out: String)
    ensures
        out@ == lossy_text(bytes@),
        valid_utf8(bytes@) ==> out@ == decode_utf8(bytes@),
{
    String::from_utf8_lossy(bytes).into_owned()
}

/// Decodes the output streams of a finished child and settles its exit code:
/// a child that ended without one counts as having exited with `-1`.
pub fn collect_output(stdout: &[u8], stderr: &[u8], exit_code: Option<i32>) -> (output:
    CliExecResult)
    ensures
        output.stdout@ == lossy_text(stdout@),
        output.stderr@ == lossy_text(stderr@),
        valid_utf8(stdout@) ==> output.stdout@ == decode_utf8(stdout@),
        valid_utf8(stderr@) ==> output.stderr@ == decode_utf8(stderr@),
        output.exit_code == (match exit_code {
            Some(code) => code,
            None => MISSING_EXIT_CODE,
        }),
{
    CliExecResult {
        stdout: decode_lossy(stdout),
        stderr: decode_lossy(stderr),
        exit_code: match exit_code {
            Some(code) => code,
            None => MISSING_EXIT_CODE,
        },
    }
}

/// The end of a text, for diagnostics: the text with line endings normalised
/// if it holds at most `max_chars` characters, else an ellipsis followed by
/// its last `max_chars` characters; and nothing where `max_chars` is zero.
pub open spec fn tail_of(s: Seq<char>, max_chars: nat) -> Seq<char> {
    let text = normalize_newlines(s);
    if max_chars == 0 {
        Seq::empty()
    } else if text.len() <= max_chars {
        text
    } else {
        seq!['…'] + text.skip(text.len() - max_chars)
    }
}

/// Cuts a text down to its end, trimming from the front and marking the cut.
pub fn tail_snippet(s: &str, max_chars: usize) -> (out: String)
    ensures
        out@ == tail_of(s@, max_chars as nat),
        out@.len() <= max_chars + 1,
{
    if max_chars == 0 {
        return String::new();
    }
    let raw = chars_of(s);
    let text = normalized(&raw);
    if text.len() <= max_chars {
        return string_of(&text);
    }
    let start = text.len() - max_chars;
    let kept = substring(&text, start, text.len());
    let mut out = String::new();
    out.push('…');
    out.append(kept.as_str());
    proof {
        assert(text@.subrange(start as int, text.len() as int) == text@.skip(start as int));
        assert(Seq::<char>::empty().push('…') == seq!['…']);
    }
    out
}

/// Everything that one invocation of the agent depends on.
#[derive(Clone, Debug, PartialEq, Eq)]
pub struct CodeagentRunSpec {
    /// The task, written to the child's standard input.
    pub task: String,
    /// The backend that serves the task.
    pub backend: BackendTag,
    /// The working directory of the child, also passed to it as an argument.
    pub workdir: String,
    /// Whether the agent may skip its permission prompts.
    pub skip_permissions: bool,
    /// The timeout that the child enforces on itself, in milliseconds.
    pub timeout_ms: Option<u64>,
    /// The greatest number of parallel workers that the child may start.
    pub max_parallel_workers: Option<u32>,
    /// The configured path of the executable.
    pub binary_path: Option<String>,
    /// The session to resume.
    pub resume_session_id: Option<String>,
    /// Whether the task is a parallel task description.
    pub parallel: bool,
    /// The model that a codex backend should use.
    pub codex_model: Option<String>,
}

/// The argument vector of an invocation.
///
/// In order: the backend flag and the trimmed name that `names` gives to
/// the backend, unless that name is blank; the parallel flag in parallel mode; the permission-skip flag if
/// asked for. A parallel invocation ends there.
/// Any other goes on with `resume` and the trimmed session identifier, if one
/// is given that is not blank, then `-` for "the task is on standard input"
/// and the working directory.
pub open spec fn argument_vector(names: BackendNames, spec: CodeagentRunSpec) -> Seq<Seq<char>> {
    (if trim(names.name(spec.backend)).len() > 0 {
        seq!["--backend"@, trim(names.name(spec.backend))]
    } else {
        seq![]
    }) + (if spec.parallel {
        seq!["--parallel"@]
    } else {
        seq![]
    }) + (if spec.skip_permissions {
        seq!["--dangerously-skip-permissions"@]
    } else {
        seq![]
    }) + (if spec.parallel {
        seq![]
    } else {
        (if spec.resume_session_id is Some && trim(spec.resume_session_id->0@).len() > 0 {
            seq!["resume"@, trim(spec.resume_session_id->0@)]
        } else {
            seq![]
        }) + seq!["-"@, spec.workdir@]
    })
}

/// The environment variables that an invocation adds for the child.
///
/// In order: the timeout in milliseconds, if there is one; the
/// permission-skip switch, if asked for; the worker limit, if there is one;
/// and the trimmed model hint, for the codex backend only and only if it is
/// not blank.
pub open spec fn environment(spec: CodeagentRunSpec) -> Seq<(Seq<char>, Seq<char>)> {
    (if let Some(ms) = spec.timeout_ms {
        seq![("CODEX_TIMEOUT"@, decimal(ms as nat))]
    } else {
        seq![]
    }) + (if spec.skip_permissions {
        seq![("CODEAGENT_SKIP_PERMISSIONS"@, "1"@)]
    } else {
        seq![]
    }) + (if let Some(n) = spec.max_parallel_workers {
        seq![("CODEAGENT_MAX_PARALLEL_WORKERS"@, decimal(n as nat))]
    } else {
        seq![]
    }) + (if spec.backend == BackendTag::Codex && spec.codex_model is Some && trim(
        spec.codex_model->0@,
    ).len() > 0 {
        seq![("CODEX_MODEL"@, trim(spec.codex_model->0@))]
    } else {
        seq![]
    })
}

/// Builds the argument vector of an invocation.
pub fn build_args(names: &BackendNames, spec: &CodeagentRunSpec) -> (args: Vec<String>)
    ensures
        texts(args@) == argument_vector(*names, *spec),
{
    let mut args: Vec<String> = Vec::new();
    assert(texts(args@) =~= seq![]);
    let backend_name = trimmed(names.name_of(spec.backend));
    if !backend_name.as_str().is_empty() {
        push_text(&mut args, "--backend".to_owned());
        push_text(&mut args, backend_name);
    }
    let ghost head = texts(args@);
    assert(head =~= (if trim(names.name(spec.backend)).len() > 0 {
        seq!["--backend"@, trim(names.name(spec.backend))]
    } else {
        seq![]
    }));
    if spec.parallel {
        push_text(&mut args, "--parallel".to_owned());
    }
    let ghost with_parallel = texts(args@);
    assert(with_parallel =~= head + (if spec.parallel {
        seq!["--parallel"@]
    } else {
        seq![]
    }));
    if spec.skip_permissions {
        push_text(&mut args, "--dangerously-skip-permissions".to_owned());
    }
    let ghost with_skip = texts(args@);
    assert(with_skip =~= with_parallel + (if spec.skip_permissions {
        seq!["--dangerously-skip-permissions"@]
    } else {
        seq![]
    }));
    if !spec.parallel {
        let ghost resume: Seq<Seq<char>> = if spec.resume_session_id is Some && trim(
            spec.resume_session_id->0@,
        ).len() > 0 {
            seq!["resume"@, trim(spec.resume_session_id->0@)]
        } else {
            seq![]
        };
        if let Some(id) = &spec.resume_session_id {
            let id = trimmed(id.as_str());
            if !id.as_str().is_empty() {
                push_text(&mut args, "resume".to_owned());
                push_text(&mut args, id);
            }
        }
        assert(texts(args@) =~= with_skip + resume);
        push_text(&mut args, "-".to_owned());
        push_text(&mut args, spec.workdir.clone());
        assert(texts(args@) =~= with_skip + (resume + seq!["-"@, spec.workdir@]));
    } else {
        assert(with_skip + Seq::<Seq<char>>::empty() =~= with_skip);
    }
    args
}

/// Builds the environment variables that an invocation adds for the child.
pub fn build_env(spec: &CodeagentRunSpec) -> (env: Vec<(String, String)>)
    ensures
        text_pairs(env@) == environment(*spec),
{
    let mut env: Vec<(String, String)> = Vec::new();
    assert(text_pairs(env@) =~= seq![]);
    if let Some(ms) = spec.timeout_ms {
        push_pair(&mut env, "CODEX_TIMEOUT".to_owned(), decimal_string(ms));
    }
    let ghost e1 = text_pairs(env@);
    assert(e1 =~= (if let Some(ms) = spec.timeout_ms {
        seq![("CODEX_TIMEOUT"@, decimal(ms as nat))]
    } else {
        seq![]
    }));
    if spec.skip_permissions {
        push_pair(&mut env, "CODEAGENT_SKIP_PERMISSIONS".to_owned(), "1".to_owned());
    }
    let ghost e2 = text_pairs(env@);
    assert(e2 =~= e1 + (if spec.skip_permissions {
        seq![("CODEAGENT_SKIP_PERMISSIONS"@, "1"@)]
    } else {
        seq![]
    }));
    if let Some(n) = spec.max_parallel_workers {
        push_pair(&mut env, "CODEAGENT_MAX_PARALLEL_WORKERS".to_owned(), decimal_string(n as u64));
    }
    let ghost e3 = text_pairs(env@);
    assert(e3 =~= e2 + (if let Some(n) = spec.max_parallel_workers {
        seq![("CODEAGENT_MAX_PARALLEL_WORKERS"@, decimal(n as nat))]
    } else {
        seq![]
    }));
    let ghost model: Seq<(Seq<char>, Seq<char>)> = if spec.backend == BackendTag::Codex
        && spec.codex_model is Some && trim(spec.codex_model->0@).len() > 0 {
        seq![("CODEX_MODEL"@, trim(spec.codex_model->0@))]
    } else {
        seq![]
    };
    if matches!(spec.backend, BackendTag::Codex) {
        if let Some(m) = &spec.codex_model {
            let m = trimmed(m.as_str());
            if !m.as_str().is_empty() {
                push_pair(&mut env, "CODEX_MODEL".to_owned(), m);
            }
        }
    }
    assert(text_pairs(env@) =~= e3 + model);
    env
}

/// Everything that is needed to start the child of one invocation.
#[derive(Clone, Debug, PartialEq, Eq)]
pub struct Invocation {
    /// The executable to start.
    pub program: String,
    /// Its arguments.
    pub args: Vec<String>,
    /// The variables to add to its environment.
    pub env: Vec<(String, String)>,
    /// Its current directory.
    pub cwd: String,
    /// What to write to its standard input before closing it.
    pub stdin: String,
}

/// The mathematical content of an `Invocation`.
pub struct InvocationView {
    pub program: Seq<char>,
    pub args: Seq<Seq<char>>,
    pub env: Seq<(Seq<char>, Seq<char>)>,
    pub cwd: Seq<char>,
    pub stdin: Seq<char>,
}

impl View for Invocation {
    type V = InvocationView;

    open spec fn view(&self) -> InvocationView {
        InvocationView {
            program: self.program@,
            args: texts(self.args@),
            env: text_pairs(self.env@),
            cwd: self.cwd@,
            stdin: self.stdin@,
        }
    }
}

/// The invocation that runs `program` for `spec`: the child works in the
/// working directory and reads the task from its standard input.
pub open spec fn invocation_of(
    names: BackendNames,
    program: Seq<char>,
    spec: CodeagentRunSpec,
) -> InvocationView {
    InvocationView {
        program,
        args: argument_vector(names, spec),
        env: environment(spec),
        cwd: spec.workdir@,
        stdin: spec.task@,
    }
}

/// Plans the start of the child that runs `program` for `spec`.
pub fn plan_invocation(names: &BackendNames, program: String, spec: &CodeagentRunSpec) -> (invocation:
    Invocation)
    ensures
        invocation@ == invocation_of(*names, program@, *spec),
{
    Invocation {
        program,
        args: build_args(names, spec),
        env: build_env(spec),
        cwd: spec.workdir.clone(),
        stdin: spec.task.clone(),
    }
}

/// What a successful invocation yields.
#[derive(Clone, Debug, PartialEq, Eq)]
pub struct CodeagentRunResult {
    /// The message that the agent printed.
    pub message: String,
    /// The session identifier of the trailer, if it was recovered.
    pub session_id: Option<String>,
    /// The child's standard output, decoded.
    pub raw_stdout: String,
    /// The child's standard error, decoded.
    pub raw_stderr: String,
    /// The child's exit code.
    pub exit_code: i32,
}

/// The step of talking to the child at which an I/O error struck.
#[derive(Clone, Copy, Debug, PartialEq, Eq, Structural)]
pub enum IoStage {
    /// Writing the task to the child's standard input.
    WriteTask,
    /// Waiting for the child to exit and collecting its output.
    AwaitExit,
}

/// Why an invocation failed.
#[derive(Clone, Debug, PartialEq, Eq)]
pub enum RunError {
    /// No executable could be resolved.
    Resolution(ResolutionError),
    /// The operating system could not start `program`.
    Spawn { detail: String, program: String },
    /// Writing the task to the child, or waiting for the child, failed.
    Io { stage: IoStage, detail: String },
    /// The child ran and exited with a code other than zero.
    NonZeroExit { exit_code: i32, stderr_tail: String, stdout_tail: String },
    /// The child exited with zero and printed no message.
    EmptyResult { stderr_tail: String },
}

/// The mathematical content of a `RunError`.
pub enum RunFailure {
    Resolution(ResolutionFailure),
    Spawn { detail: Seq<char>, program: Seq<char> },
    Io { stage: IoStage, detail: Seq<char> },
    NonZeroExit { exit_code: int, stderr_tail: Seq<char>, stdout_tail: Seq<char> },
    EmptyResult { stderr_tail: Seq<char> },
}

impl View for RunError {
    type V = RunFailure;

    open spec fn view(&self) -> RunFailure {
        match self {
            RunError::Resolution(e) => RunFailure::Resolution(e@),
            RunError::Spawn { detail, program } => RunFailure::Spawn {
                detail: detail@,
                program: program@,
            },
            RunError::Io { stage, detail } => RunFailure::Io { stage: *stage, detail: detail@ },
            RunError::NonZeroExit { exit_code, stderr_tail, stdout_tail } => RunFailure::NonZeroExit {
                exit_code: *exit_code as int,
                stderr_tail: stderr_tail@,
                stdout_tail: stdout_tail@,
            },
            RunError::EmptyResult { stderr_tail } => RunFailure::EmptyResult {
                stderr_tail: stderr_tail@,
            },
        }
    }
}

impl RunFailure {
    /// The text shown for the failure. Diagnostics taken from the child's
    /// standard error are shown without surrounding white space.
    pub open spec fn rendered(self) -> Seq<char> {
        match self {
            RunFailure::Resolution(e) => e.rendered(),
            RunFailure::Spawn { detail, program } => "启动 codeagent-wrapper 失败: "@ + detail
                + " (bin="@ + program + ")"@,
            RunFailure::Io { stage, detail } => (match stage {
                IoStage::WriteTask => "写入 codeagent-wrapper stdin 失败: "@,
                IoStage::AwaitExit => "等待 codeagent-wrapper 退出失败: "@,
            }) + detail,
            RunFailure::NonZeroExit { exit_code, stderr_tail, stdout_tail } =>
                "codeagent-wrapper 退出码 "@ + signed_decimal(exit_code) + "。stderr: "@ + trim(
                    stderr_tail,
                ),
            RunFailure::EmptyResult { stderr_tail } => "codeagent-wrapper 未返回有效消息。stderr: "@
                + trim(stderr_tail),
        }
    }
}

impl RunError {
    /// The text shown for the error.
    pub fn message(&self) -> (text: String)
        ensures
            text@ == self@.rendered(),
    {
        match self {
            RunError::Resolution(e) => e.message(),
            RunError::Spawn { detail, program } => {
                let mut text = "启动 codeagent-wrapper 失败: ".to_owned();
                text.append(detail.as_str());
                text.append(" (bin=");
                text.append(program.as_str());
                text.append(")");
                text
            },
            RunError::Io { stage, detail } => {
                let mut text = match stage {
                    IoStage::WriteTask => "写入 codeagent-wrapper stdin 失败: ".to_owned(),
                    IoStage::AwaitExit => "等待 codeagent-wrapper 退出失败: ".to_owned(),
                };
                text.append(detail.as_str());
                text
            },
            RunError::NonZeroExit { exit_code, stderr_tail, stdout_tail } => {
                let mut text = "codeagent-wrapper 退出码 ".to_owned();
                text.append(signed_decimal_string(*exit_code).as_str());
                text.append("。stderr: ");
                text.append(trimmed(stderr_tail.as_str()).as_str());
                text
            },
            RunError::EmptyResult { stderr_tail } => {
                let mut text = "codeagent-wrapper 未返回有效消息。stderr: ".to_owned();
                text.append(trimmed(stderr_tail.as_str()).as_str());
                text
            },
        }
    }

    /// The error as the application reports it: an error of the AI service
    /// whose detail is the text of this error.
    pub fn into_app_error(self) -> (error: AppError)
        ensures
            error matches AppError::AiServiceError(detail) && detail@ == self@.rendered(),
    {
        AppError::AiServiceError(self.message())
    }
}

/// The mathematical content of a `CodeagentRunResult`.
pub struct RunOutcome {
    pub message: Seq<char>,
    pub session_id: Option<Seq<char>>,
    pub raw_stdout: Seq<char>,
    pub raw_stderr: Seq<char>,
    pub exit_code: int,
}

impl View for CodeagentRunResult {
    type V = RunOutcome;

    open spec fn view(&self) -> RunOutcome {
        RunOutcome {
            message: self.message@,
            session_id: self.session_id.deep_view(),
            raw_stdout: self.raw_stdout@,
            raw_stderr: self.raw_stderr@,
            exit_code: self.exit_code as int,
        }
    }
}

/// What is made of a finished child.
///
/// An exit code other than zero is an error that keeps the ends of both
/// output streams. With exit code zero the standard output is parsed; an
/// empty message is an error that keeps the end of the standard error; any
/// other message is the result, together with the session identifier and the
/// raw streams.
pub open spec fn interpreted(stdout: Seq<char>, stderr: Seq<char>, exit_code: int) -> Result<
    RunOutcome,
    RunFailure,
> {
    if exit_code != 0 {
        Err(
            RunFailure::NonZeroExit {
                exit_code,
                stderr_tail: tail_of(stderr, DIAGNOSTIC_TAIL_CHARS as nat),
                stdout_tail: tail_of(stdout, DIAGNOSTIC_TAIL_CHARS as nat),
            },
        )
    } else if parsed_output(stdout).0.len() == 0 {
        Err(RunFailure::EmptyResult { stderr_tail: tail_of(stderr, DIAGNOSTIC_TAIL_CHARS as nat) })
    } else {
        Ok(
            RunOutcome {
                message: parsed_output(stdout).0,
                session_id: parsed_output(stdout).1,
                raw_stdout: stdout,
                raw_stderr: stderr,
                exit_code: 0,
            },
        )
    }
}

/// Turns what a finished child left behind into the result of the
/// invocation, or into the error that reports its failure.
pub fn interpret_output(output: CliExecResult) -> (result: Result<CodeagentRunResult, RunError>)
    ensures
        match result {
            Ok(r) => interpreted(output.stdout@, output.stderr@, output.exit_code as int) == Ok::<
                RunOutcome,
                RunFailure,
            >(r@),
            Err(e) => interpreted(output.stdout@, output.stderr@, output.exit_code as int) == Err::<
                RunOutcome,
                RunFailure,
            >(e@),
        },
{
    if output.exit_code != 0 {
        return Err(
            RunError::NonZeroExit {
                exit_code: output.exit_code,
                stderr_tail: tail_snippet(output.stderr.as_str(), DIAGNOSTIC_TAIL_CHARS),
                stdout_tail: tail_snippet(output.stdout.as_str(), DIAGNOSTIC_TAIL_CHARS),
            },
        );
    }
    let (message, session_id) = parse_codeagent_stdout(output.stdout.as_str());
    if message.as_str().is_empty() {
        return Err(
            RunError::EmptyResult {
                stderr_tail: tail_snippet(output.stderr.as_str(), DIAGNOSTIC_TAIL_CHARS),
            },
        );
    }
    Ok(
        CodeagentRunResult {
            message,
            session_id,
            raw_stdout: output.stdout,
            raw_stderr: output.stderr,
            exit_code: output.exit_code,
        },
    )
}

} // verus!
