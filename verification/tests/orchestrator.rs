use code_ai_assistant::backend::{BackendNames, BackendTag};
use code_ai_assistant::orchestrator::{Phase, TaskAction, TaskEvent, TaskOrchestrator, TaskStep};
use code_ai_assistant::registry::CancellationRegistry;
use code_ai_assistant::resolver::ResolutionError;
use code_ai_assistant::runner::{CliExecResult, CodeagentRunSpec, IoStage};
use code_ai_assistant::stream::StreamEvent;

fn spec() -> CodeagentRunSpec {
    CodeagentRunSpec {
        task: "list files".to_string(),
        backend: BackendTag::Gemini,
        workdir: ".".to_string(),
        skip_permissions: false,
        timeout_ms: Some(5000),
        max_parallel_workers: None,
        binary_path: Some("/opt/w".to_string()),
        resume_session_id: None,
        parallel: false,
        codex_model: None,
    }
}

fn new_task(id: &str) -> TaskOrchestrator {
    TaskOrchestrator::new(id.to_string(), BackendNames::standard("sonnet".to_string()).unwrap())
}

fn exited(stdout: &str, stderr: &str, exit_code: i32) -> TaskEvent {
    TaskEvent::Exited(CliExecResult {
        stdout: stdout.to_string(),
        stderr: stderr.to_string(),
        exit_code,
    })
}

fn emitted(step: &TaskStep) -> &StreamEvent {
    match &step.action {
        TaskAction::Emit(e) => e,
        other => panic!("expected an event, got {other:?}"),
    }
}

fn running(id: &str) -> TaskOrchestrator {
    let mut task = new_task(id);
    task.step(TaskEvent::Start(spec()));
    task.step(TaskEvent::Located(Ok("/opt/w".to_string())));
    assert_eq!(task.phase(), Phase::ProcessRunning);
    task
}

#[test]
fn request_runs_from_start_to_done() {
    let mut task = new_task("req-1");
    assert_eq!(task.phase(), Phase::Idle);
    assert_eq!(task.request_id(), "req-1");
    assert!(!task.is_finished());

    let step = task.step(TaskEvent::Start(spec()));
    assert_eq!(step.entered, vec![Phase::BackendResolved]);
    match step.action {
        TaskAction::Locate { binary_path } => assert_eq!(binary_path, Some("/opt/w".to_string())),
        other => panic!("unexpected {other:?}"),
    }

    let step = task.step(TaskEvent::Located(Ok("/opt/w".to_string())));
    assert_eq!(step.entered, vec![Phase::ExecutableResolved, Phase::ProcessRunning]);
    match step.action {
        TaskAction::Run(invocation) => {
            assert_eq!(invocation.program, "/opt/w");
            assert_eq!(invocation.args, vec!["--backend", "gemini", "-", "."]);
            assert_eq!(
                invocation.env,
                vec![("CODEX_TIMEOUT".to_string(), "5000".to_string())]
            );
            assert_eq!(invocation.cwd, ".");
            assert_eq!(invocation.stdin, "list files");
        }
        other => panic!("unexpected {other:?}"),
    }

    let step = task.step(exited("Done.\n---\nSESSION_ID: abc123\n", "", 0));
    assert_eq!(step.entered, vec![Phase::TrailerParsed, Phase::Streaming, Phase::Done]);
    assert_eq!(
        emitted(&step),
        &StreamEvent {
            request_id: "req-1".to_string(),
            delta: "Done.".to_string(),
            is_final: true,
            codeagent_session_id: Some("abc123".to_string()),
        }
    );
    assert_eq!(task.phase(), Phase::Done);
    assert!(task.is_finished());
}

#[test]
fn long_message_is_streamed_chunk_by_chunk() {
    let mut task = running("req-2");
    let message = "x".repeat(70);
    let step = task.step(exited(&format!("{message}\n---\nSESSION_ID: s1\n"), "", 0));
    assert_eq!(step.entered, vec![Phase::TrailerParsed, Phase::Streaming]);
    assert_eq!(emitted(&step).delta, "x".repeat(32));
    assert!(!emitted(&step).is_final);
    assert_eq!(emitted(&step).codeagent_session_id, None);
    assert_eq!(task.phase(), Phase::Streaming);

    let step = task.step(TaskEvent::Delivered);
    assert!(step.entered.is_empty());
    assert_eq!(emitted(&step).delta, "x".repeat(32));
    assert!(!emitted(&step).is_final);
    assert_eq!(task.phase(), Phase::Streaming);

    let step = task.step(TaskEvent::Delivered);
    assert_eq!(step.entered, vec![Phase::Done]);
    assert_eq!(emitted(&step).delta, "x".repeat(6));
    assert!(emitted(&step).is_final);
    assert_eq!(emitted(&step).codeagent_session_id, Some("s1".to_string()));
    assert!(task.is_finished());

    let step = task.step(TaskEvent::Delivered);
    assert!(matches!(step.action, TaskAction::Ignore));
    assert!(step.entered.is_empty());
}

#[test]
fn failed_child_is_reported_with_exit_code_and_diagnostics() {
    let mut task = running("req-3");
    let step = task.step(exited("", "permission denied", 1));
    assert_eq!(step.entered, vec![Phase::Errored]);
    assert_eq!(
        emitted(&step),
        &StreamEvent {
            request_id: "req-3".to_string(),
            delta: "[AI 错误] AI service error: codeagent-wrapper 退出码 1。stderr: permission denied"
                .to_string(),
            is_final: true,
            codeagent_session_id: None,
        }
    );
    assert_eq!(task.phase(), Phase::Errored);
    assert!(task.is_finished());
    let step = task.step(TaskEvent::Delivered);
    assert!(matches!(step.action, TaskAction::Ignore));
}

#[test]
fn resolver_failure_ends_the_request_from_backend_resolved() {
    let mut task = new_task("req-4");
    task.step(TaskEvent::Start(spec()));
    let step = task.step(TaskEvent::Located(Err(ResolutionError::ExplicitPathMissing)));
    assert_eq!(step.entered, vec![Phase::Errored]);
    assert_eq!(
        emitted(&step).delta,
        "[AI 错误] AI service error: 指定的 codeagent-wrapper 路径不存在"
    );
    assert!(emitted(&step).is_final);
    assert_eq!(task.phase(), Phase::Errored);
}

#[test]
fn spawn_and_io_failures_end_the_request_from_process_running() {
    let mut task = running("req-5");
    let step = task.step(TaskEvent::SpawnFailed { detail: "No such file".to_string() });
    assert_eq!(step.entered, vec![Phase::Errored]);
    assert_eq!(
        emitted(&step).delta,
        "[AI 错误] AI service error: 启动 codeagent-wrapper 失败: No such file (bin=/opt/w)"
    );

    let mut task = running("req-6");
    let step = task.step(TaskEvent::IoFailed {
        stage: IoStage::WriteTask,
        detail: "broken pipe".to_string(),
    });
    assert_eq!(step.entered, vec![Phase::Errored]);
    assert_eq!(
        emitted(&step).delta,
        "[AI 错误] AI service error: 写入 codeagent-wrapper stdin 失败: broken pipe"
    );
    assert!(emitted(&step).is_final);
}

#[test]
fn empty_message_fails_after_the_trailer_is_parsed() {
    let mut task = running("req-7");
    let step = task.step(exited("\n---\nSESSION_ID: abc\n", "hm\n", 0));
    assert_eq!(step.entered, vec![Phase::TrailerParsed, Phase::Errored]);
    assert_eq!(
        emitted(&step).delta,
        "[AI 错误] AI service error: codeagent-wrapper 未返回有效消息。stderr: hm"
    );
    assert!(emitted(&step).is_final);
    assert_eq!(emitted(&step).codeagent_session_id, None);
}

#[test]
fn events_that_do_not_apply_are_ignored() {
    let mut task = new_task("req-8");
    for event in [
        TaskEvent::Located(Ok("/opt/w".to_string())),
        TaskEvent::Delivered,
        exited("x", "", 0),
        TaskEvent::SpawnFailed { detail: "d".to_string() },
    ] {
        let step = task.step(event);
        assert!(matches!(step.action, TaskAction::Ignore));
        assert!(step.entered.is_empty());
        assert_eq!(task.phase(), Phase::Idle);
    }
    task.step(TaskEvent::Start(spec()));
    let step = task.step(TaskEvent::Start(spec()));
    assert!(matches!(step.action, TaskAction::Ignore));
    assert_eq!(task.phase(), Phase::BackendResolved);
}

#[test]
fn cancelling_a_stream_ends_it_without_a_final_event() {
    let mut task = running("req-9");
    let message = "y".repeat(100);
    let step = task.step(exited(&message, "", 0));
    assert!(!emitted(&step).is_final);
    let step = task.step(TaskEvent::Cancel);
    assert_eq!(step.entered, vec![Phase::Done]);
    assert!(matches!(step.action, TaskAction::Finish));
    assert!(task.is_finished());
    assert!(task.is_cancelled());
    let step = task.step(TaskEvent::Delivered);
    assert!(matches!(step.action, TaskAction::Ignore));
}

#[test]
fn request_cancelled_early_goes_on_silently() {
    let mut task = new_task("req-10");
    task.step(TaskEvent::Start(spec()));
    let step = task.step(TaskEvent::Cancel);
    assert!(matches!(step.action, TaskAction::Ignore));
    assert!(step.entered.is_empty());
    assert!(task.is_cancelled());
    assert_eq!(task.phase(), Phase::BackendResolved);
    let step = task.step(TaskEvent::Located(Ok("/opt/w".to_string())));
    assert!(matches!(step.action, TaskAction::Run(_)));
    let step = task.step(exited("Done.", "", 0));
    assert_eq!(step.entered, vec![Phase::TrailerParsed, Phase::Streaming, Phase::Done]);
    assert!(matches!(step.action, TaskAction::Finish));
    assert!(task.is_finished());

    let mut task = running("req-11");
    task.step(TaskEvent::Cancel);
    let step = task.step(exited("", "bad", 9));
    assert_eq!(step.entered, vec![Phase::Errored]);
    assert!(matches!(step.action, TaskAction::Finish));
    assert_eq!(task.phase(), Phase::Errored);
}

#[test]
fn every_uncancelled_request_ends_with_exactly_one_final_event() {
    let outputs = [
        ("Done.\n---\nSESSION_ID: a\n", "", 0),
        ("", "", 0),
        ("", "boom", 2),
        ("a much longer answer that needs more than one chunk to be delivered", "", 0),
    ];
    for (stdout, stderr, code) in outputs {
        let mut task = running("req");
        let mut finals = 0;
        let mut step = task.step(exited(stdout, stderr, code));
        let mut guard = 0;
        loop {
            if let TaskAction::Emit(e) = &step.action {
                if e.is_final {
                    finals += 1;
                }
            }
            if task.is_finished() {
                break;
            }
            step = task.step(TaskEvent::Delivered);
            guard += 1;
            assert!(guard < 100);
        }
        assert_eq!(finals, 1, "stdout {stdout:?}");
    }
}

#[test]
fn request_is_registered_from_its_start_to_its_end() {
    let mut registry = CancellationRegistry::new();
    registry.insert("other".to_string());
    let mut task = new_task("req-20");
    assert!(!registry.contains("req-20"));
    let step = task.advance(&mut registry, TaskEvent::Located(Ok("/opt/w".to_string())));
    assert!(matches!(step.action, TaskAction::Ignore));
    assert!(!registry.contains("req-20"));

    let step = task.advance(&mut registry, TaskEvent::Start(spec()));
    assert!(matches!(step.action, TaskAction::Locate { .. }));
    assert!(registry.contains("req-20"));
    assert!(!registry.is_cancelled("req-20"));
    task.advance(&mut registry, TaskEvent::Located(Ok("/opt/w".to_string())));
    assert!(registry.contains("req-20"));
    let step = task.advance(&mut registry, exited(&"z".repeat(40), "", 0));
    assert!(!emitted(&step).is_final);
    assert!(registry.contains("req-20"));
    let step = task.advance(&mut registry, TaskEvent::Delivered);
    assert!(emitted(&step).is_final);
    assert!(task.is_finished());
    assert!(!registry.contains("req-20"));
    assert!(registry.contains("other"));
    assert_eq!(registry.len(), 1);
}

#[test]
fn failed_request_leaves_the_registry_too() {
    let mut registry = CancellationRegistry::new();
    let mut task = new_task("req-21");
    task.advance(&mut registry, TaskEvent::Start(spec()));
    assert_eq!(registry.len(), 1);
    let step =
        task.advance(&mut registry, TaskEvent::Located(Err(ResolutionError::NotFound)));
    assert!(emitted(&step).is_final);
    assert_eq!(task.phase(), Phase::Errored);
    assert_eq!(registry.len(), 0);
}

#[test]
fn cancellation_through_the_registry_stops_the_stream() {
    let mut registry = CancellationRegistry::new();
    let mut task = new_task("req-22");
    task.advance(&mut registry, TaskEvent::Start(spec()));
    task.advance(&mut registry, TaskEvent::Located(Ok("/opt/w".to_string())));
    let step = task.advance(&mut registry, exited(&"q".repeat(200), "", 0));
    assert_eq!(emitted(&step).delta, "q".repeat(32));
    let step = task.advance(&mut registry, TaskEvent::Delivered);
    assert_eq!(emitted(&step).delta, "q".repeat(32));

    assert!(registry.cancel("req-22"));
    let step = task.advance(&mut registry, TaskEvent::Delivered);
    assert!(matches!(step.action, TaskAction::Finish));
    assert_eq!(step.entered, vec![Phase::Done]);
    assert!(task.is_finished());
    assert!(task.is_cancelled());
    assert!(!registry.contains("req-22"));
    assert!(!registry.cancel("req-22"));
    let step = task.advance(&mut registry, TaskEvent::Delivered);
    assert!(matches!(step.action, TaskAction::Ignore));
    assert_eq!(registry.len(), 0);
}

#[test]
fn request_cancelled_while_the_child_runs_ends_silently() {
    let mut registry = CancellationRegistry::new();
    let mut task = new_task("req-23");
    task.advance(&mut registry, TaskEvent::Start(spec()));
    task.advance(&mut registry, TaskEvent::Located(Ok("/opt/w".to_string())));
    assert!(registry.cancel("req-23"));
    let step = task.advance(&mut registry, exited("Done.", "", 0));
    assert!(matches!(step.action, TaskAction::Finish));
    assert_eq!(step.entered, vec![Phase::TrailerParsed, Phase::Streaming, Phase::Done]);
    assert!(!registry.contains("req-23"));
}
