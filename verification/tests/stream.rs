use code_ai_assistant::stream::{error_event, stream_events, StreamEmitter, StreamEvent, CHUNK_CHARS};

fn deltas(events: &[StreamEvent]) -> Vec<String> {
    events.iter().map(|e| e.delta.clone()).collect()
}

fn ceil_div_32(n: usize) -> usize {
    if n == 0 {
        1
    } else {
        (n + 31) / 32
    }
}

#[test]
fn chunk_size_is_thirty_two() {
    assert_eq!(CHUNK_CHARS, 32);
}

#[test]
fn short_message_streams_as_one_final_event() {
    let events = stream_events("req-1", "ab", Some("sid".to_string()));
    assert_eq!(
        events,
        vec![StreamEvent {
            request_id: "req-1".to_string(),
            delta: "ab".to_string(),
            is_final: true,
            codeagent_session_id: Some("sid".to_string()),
        }]
    );
}

#[test]
fn empty_message_streams_as_one_empty_final_event() {
    let events = stream_events("req-1", "", None);
    assert_eq!(
        events,
        vec![StreamEvent {
            request_id: "req-1".to_string(),
            delta: String::new(),
            is_final: true,
            codeagent_session_id: None,
        }]
    );
}

#[test]
fn message_is_cut_every_thirty_two_characters() {
    let message: String = ('a'..='z').cycle().take(70).collect();
    let events = stream_events("r", &message, Some("s9".to_string()));
    assert_eq!(
        deltas(&events),
        vec![
            "abcdefghijklmnopqrstuvwxyzabcdef".to_string(),
            "ghijklmnopqrstuvwxyzabcdefghijkl".to_string(),
            "mnopqr".to_string(),
        ]
    );
    assert_eq!(events.iter().map(|e| e.is_final).collect::<Vec<_>>(), vec![false, false, true]);
    assert_eq!(events[0].codeagent_session_id, None);
    assert_eq!(events[1].codeagent_session_id, None);
    assert_eq!(events[2].codeagent_session_id, Some("s9".to_string()));
    assert!(events.iter().all(|e| e.request_id == "r"));
}

#[test]
fn exact_multiples_do_not_add_an_empty_event() {
    let m32 = "x".repeat(32);
    let events = stream_events("r", &m32, None);
    assert_eq!(events.len(), 1);
    assert!(events[0].is_final);
    assert_eq!(events[0].delta, m32);

    let m64 = "y".repeat(64);
    let events = stream_events("r", &m64, None);
    assert_eq!(events.len(), 2);
    assert_eq!(events[0].delta.len(), 32);
    assert_eq!(events[1].delta.len(), 32);
    assert!(!events[0].is_final);
    assert!(events[1].is_final);

    let m33 = "z".repeat(33);
    let events = stream_events("r", &m33, None);
    assert_eq!(deltas(&events), vec!["z".repeat(32), "z".to_string()]);
}

#[test]
fn chunks_are_counted_in_scalar_values_not_bytes() {
    let message = "é".repeat(33);
    let events = stream_events("r", &message, None);
    assert_eq!(events.len(), 2);
    assert_eq!(events[0].delta, "é".repeat(32));
    assert_eq!(events[0].delta.len(), 64);
    assert_eq!(events[1].delta, "é");

    let message = "日本語".repeat(11);
    let events = stream_events("r", &message, None);
    assert_eq!(events.len(), 2);
    assert_eq!(events[0].delta.chars().count(), 32);
    assert_eq!(events[1].delta.chars().count(), 1);
}

#[test]
fn stream_has_ceil_n_over_32_events_one_final_and_rebuilds_the_message() {
    for n in 0..200usize {
        let message: String = (0..n).map(|i| char::from(b'a' + (i % 26) as u8)).collect();
        let events = stream_events("r", &message, Some("sid".to_string()));
        assert_eq!(events.len(), ceil_div_32(n), "length {n}");
        assert_eq!(events.iter().filter(|e| e.is_final).count(), 1, "length {n}");
        assert!(events.last().unwrap().is_final);
        assert_eq!(deltas(&events).concat(), message);
        for (i, e) in events.iter().enumerate() {
            let last = i + 1 == events.len();
            assert_eq!(e.codeagent_session_id, if last { Some("sid".to_string()) } else { None });
            if !last {
                assert_eq!(e.delta.chars().count(), 32);
            }
        }
    }
}

#[test]
fn emitter_hands_out_the_stream_one_event_per_call() {
    let message = "m".repeat(40);
    let mut emitter = StreamEmitter::new("r".to_string(), &message, Some("s".to_string()));
    assert!(!emitter.is_finished());
    assert!(!emitter.is_cancelled());
    let first = emitter.next_event().unwrap();
    assert_eq!(first.delta, "m".repeat(32));
    assert!(!first.is_final);
    assert_eq!(first.codeagent_session_id, None);
    assert!(!emitter.is_finished());
    let second = emitter.next_event().unwrap();
    assert_eq!(second.delta, "m".repeat(8));
    assert!(second.is_final);
    assert_eq!(second.codeagent_session_id, Some("s".to_string()));
    assert!(emitter.is_finished());
    assert_eq!(emitter.next_event(), None);
    assert_eq!(emitter.next_event(), None);
}

#[test]
fn cancelled_emitter_delivers_nothing_more() {
    let message = "c".repeat(100);
    for k in 0..6usize {
        let mut emitter = StreamEmitter::new("r".to_string(), &message, Some("s".to_string()));
        let mut before = Vec::new();
        for _ in 0..k {
            if let Some(e) = emitter.next_event() {
                before.push(e);
            }
        }
        emitter.cancel();
        assert!(emitter.is_cancelled());
        for _ in 0..5 {
            assert_eq!(emitter.next_event(), None);
        }
        let full = stream_events("r", &message, Some("s".to_string()));
        assert_eq!(before.len(), k.min(4));
        assert_eq!(&full[..before.len()], &before[..]);
        for (i, e) in before.iter().enumerate() {
            assert_eq!(e.is_final, i + 1 == 4);
        }
    }
}

#[test]
fn cancelling_before_the_first_event_delivers_nothing() {
    let mut emitter = StreamEmitter::new("r".to_string(), "hello", None);
    emitter.cancel();
    assert_eq!(emitter.next_event(), None);
    assert!(!emitter.is_finished());
}

#[test]
fn error_event_is_final_and_has_no_session() {
    let event = error_event("req-9", "[AI 错误] boom");
    assert_eq!(
        event,
        StreamEvent {
            request_id: "req-9".to_string(),
            delta: "[AI 错误] boom".to_string(),
            is_final: true,
            codeagent_session_id: None,
        }
    );
}
