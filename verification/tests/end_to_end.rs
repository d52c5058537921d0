use code_ai_assistant::ai::{AiChatOptions, AiService};
use code_ai_assistant::backend::{BackendNames, BackendTag};
use code_ai_assistant::orchestrator::{Phase, TaskAction, TaskEvent, TaskOrchestrator};
use code_ai_assistant::registry::CancellationRegistry;
use code_ai_assistant::resolver::{resolve_executable, FileProbe, Platform};
use code_ai_assistant::runner::collect_output;
use code_ai_assistant::stream::StreamEvent;

fn names() -> BackendNames {
    BackendNames::standard("sonnet".to_string()).unwrap()
}

fn service() -> AiService {
    AiService::new(names(), Vec::new(), None)
}

fn wrapper_on_path() -> Vec<FileProbe> {
    vec![FileProbe {
        path: "/usr/local/bin/codeagent-wrapper".to_string(),
        exists: true,
        is_file: true,
        mode: Some(0o755),
        extension: None,
    }]
}

/// Plays the caller's part: answers each action with the event that the
/// outside world gives, and collects the events that are emitted.
fn serve(
    task: &mut TaskOrchestrator,
    first: TaskEvent,
    stdout: &[u8],
    stderr: &[u8],
    exit_code: Option<i32>,
) -> Vec<StreamEvent> {
    let mut emitted = Vec::new();
    let mut event = first;
    for _ in 0..1000 {
        let step = task.step(event);
        event = match step.action {
            TaskAction::Locate { binary_path } => {
                assert_eq!(binary_path, None);
                let none = Vec::new();
                TaskEvent::Located(resolve_executable(
                    None,
                    &wrapper_on_path(),
                    &none,
                    None,
                    Platform::Posix,
                ))
            }
            TaskAction::Run(_) => TaskEvent::Exited(collect_output(stdout, stderr, exit_code)),
            TaskAction::Emit(e) => {
                emitted.push(e);
                TaskEvent::Delivered
            }
            TaskAction::Finish | TaskAction::Ignore => break,
        };
        if task.is_finished() {
            break;
        }
    }
    emitted
}

#[test]
fn answer_with_trailer_reaches_the_subscriber() {
    let options = AiChatOptions { code_cli: Some("sonnet-cli".to_string()), ..Default::default() };
    let run = service().plan_run("list files", options);
    assert_eq!(run.backend, BackendTag::Anthropic);

    let mut registry = CancellationRegistry::new();
    let mut task = TaskOrchestrator::new("req-1".to_string(), names());
    assert!(registry.insert(task.request_id().to_string()));

    let step = task.step(TaskEvent::Start(run));
    assert!(matches!(step.action, TaskAction::Locate { binary_path: None }));
    let step = task.step(TaskEvent::Located(Ok("/usr/local/bin/codeagent-wrapper".to_string())));
    match step.action {
        TaskAction::Run(invocation) => {
            assert_eq!(invocation.program, "/usr/local/bin/codeagent-wrapper");
            assert_eq!(invocation.args, vec!["--backend", "sonnet", "-", "."]);
            assert!(invocation.env.is_empty());
            assert_eq!(invocation.cwd, ".");
            assert_eq!(invocation.stdin, "list files");
        }
        other => panic!("unexpected {other:?}"),
    }
    let events = serve(
        &mut task,
        TaskEvent::Exited(collect_output(b"Done.\n---\nSESSION_ID: abc123\n", b"", Some(0))),
        b"",
        b"",
        None,
    );
    assert_eq!(
        events,
        vec![StreamEvent {
            request_id: "req-1".to_string(),
            delta: "Done.".to_string(),
            is_final: true,
            codeagent_session_id: Some("abc123".to_string()),
        }]
    );
    assert_eq!(task.phase(), Phase::Done);
    assert!(task.is_finished());
    assert!(registry.remove(task.request_id()));
    assert_eq!(registry.len(), 0);
}

#[test]
fn failing_child_yields_exactly_one_final_error_event() {
    let run = service().plan_run("list files", AiChatOptions::default());
    let mut task = TaskOrchestrator::new("req-2".to_string(), names());
    let events =
        serve(&mut task, TaskEvent::Start(run), b"", b"permission denied", Some(1));
    assert_eq!(events.len(), 1);
    let event = &events[0];
    assert!(event.is_final);
    assert_eq!(event.request_id, "req-2");
    assert_eq!(event.codeagent_session_id, None);
    assert!(event.delta.contains("退出码 1"), "{}", event.delta);
    assert!(event.delta.contains("permission denied"), "{}", event.delta);
    assert_eq!(
        event.delta,
        "[AI 错误] AI service error: codeagent-wrapper 退出码 1。stderr: permission denied"
    );
    assert_eq!(task.phase(), Phase::Errored);
}

#[test]
fn long_answer_arrives_in_order_and_rebuilds_the_message() {
    let message: String = (0..500).map(|i| char::from(b'a' + (i % 26) as u8)).collect();
    let stdout = format!("{message}\n---\nSESSION_ID: s-42\n");
    let run = service().plan_run("write", AiChatOptions::default());
    let mut task = TaskOrchestrator::new("req-3".to_string(), names());
    let events = serve(&mut task, TaskEvent::Start(run), stdout.as_bytes(), b"", Some(0));
    assert_eq!(events.len(), 16);
    assert_eq!(events.iter().filter(|e| e.is_final).count(), 1);
    assert!(events.last().unwrap().is_final);
    assert_eq!(events.last().unwrap().codeagent_session_id, Some("s-42".to_string()));
    assert_eq!(events.iter().map(|e| e.delta.as_str()).collect::<String>(), message);
    assert!(events[..15].iter().all(|e| e.codeagent_session_id.is_none()));
    assert_eq!(task.phase(), Phase::Done);
}

#[test]
fn missing_executable_is_reported_once() {
    let run = service().plan_run("x", AiChatOptions::default());
    let mut task = TaskOrchestrator::new("req-4".to_string(), names());
    task.step(TaskEvent::Start(run));
    let none = Vec::new();
    let found = resolve_executable(None, &none, &none, None, Platform::Posix);
    let step = task.step(TaskEvent::Located(found));
    match step.action {
        TaskAction::Emit(e) => {
            assert!(e.is_final);
            assert!(e.delta.starts_with("[AI 错误] AI service error: 未找到 codeagent-wrapper。"));
        }
        other => panic!("unexpected {other:?}"),
    }
    assert_eq!(task.phase(), Phase::Errored);
}

#[test]
fn hint_that_names_gemini_is_served_by_gemini() {
    let options = AiChatOptions { code_cli: Some("gemini-cli".to_string()), ..Default::default() };
    let run = service().plan_run("list files", options);
    assert_eq!(run.backend, BackendTag::Gemini);
    let mut task = TaskOrchestrator::new("req-5".to_string(), names());
    task.step(TaskEvent::Start(run));
    let step = task.step(TaskEvent::Located(Ok("/usr/local/bin/codeagent-wrapper".to_string())));
    match step.action {
        TaskAction::Run(invocation) => {
            assert_eq!(invocation.args, vec!["--backend", "gemini", "-", "."]);
        }
        other => panic!("unexpected {other:?}"),
    }
    let events = serve(
        &mut task,
        TaskEvent::Exited(collect_output(b"Done.\n---\nSESSION_ID: abc123\n", b"", Some(0))),
        b"",
        b"",
        None,
    );
    assert_eq!(events.len(), 1);
    assert_eq!(events[0].delta, "Done.");
    assert!(events[0].is_final);
    assert_eq!(events[0].codeagent_session_id, Some("abc123".to_string()));
}
