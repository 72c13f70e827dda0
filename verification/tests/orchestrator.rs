use llm_chat::models::{
    ChatChoice, ChatResponse, ChatSession, Message, MessageMetrics, Role, StreamChoice,
    StreamDelta, StreamResponse, Timings, Usage,
};
use llm_chat::orchestrator::{Completion, Phase};
use llm_chat::store::SessionStore;

fn brand_new() -> SessionStore {
    SessionStore::with_session(ChatSession::with_id("s1".to_string(), "sys".to_string(), 1))
}

fn usage_of(value: &serde_json::Value) -> Option<Usage> {
    let u = value.get("usage")?;
    Some(Usage {
        prompt_tokens: u.get("prompt_tokens")?.as_u64()?,
        completion_tokens: u.get("completion_tokens")?.as_u64()?,
        total_tokens: u.get("total_tokens")?.as_u64()?,
    })
}

fn parse_record(payload: &str) -> Option<StreamResponse> {
    let value: serde_json::Value = serde_json::from_str(payload).ok()?;
    let mut choices = Vec::new();
    for choice in value.get("choices")?.as_array()? {
        let content = choice.get("delta")?.get("content").and_then(|c| c.as_str());
        choices.push(StreamChoice { delta: StreamDelta { content: content.map(|c| c.to_string()) } });
    }
    let mut metrics = MessageMetrics::default();
    metrics.usage = usage_of(&value);
    metrics.id = value.get("id").and_then(|v| v.as_str()).map(|v| v.to_string());
    metrics.model = value.get("model").and_then(|v| v.as_str()).map(|v| v.to_string());
    metrics.created = value.get("created").and_then(|v| v.as_u64());
    Some(StreamResponse { choices, metrics })
}

fn delta(text: &str) -> StreamResponse {
    StreamResponse {
        choices: vec![StreamChoice { delta: StreamDelta { content: Some(text.to_string()) } }],
        metrics: MessageMetrics::default(),
    }
}

fn shown(store: &SessionStore) -> Vec<(Role, String)> {
    store.messages_of("s1").into_iter().map(|m| (m.role, m.content)).collect()
}

fn send(store: &mut SessionStore, display: &str, outbound: &str, stream: bool) -> Completion {
    let history: Vec<Message> = store.messages_of("s1");
    Completion::begin(store, "s1", history, display, outbound, stream)
}

#[test]
fn hello_streams_into_hi_there() {
    let mut store = brand_new();
    let mut run = send(&mut store, "Hello", "Hello", true);
    assert_eq!(run.phase(), Phase::Sending);
    assert!(run.is_loading());
    assert_eq!(
        shown(&store),
        vec![(Role::System, "sys".to_string()), (Role::User, "Hello".to_string())]
    );
    assert!(run.on_connected(&mut store));
    assert_eq!(run.phase(), Phase::Streaming);
    assert_eq!(shown(&store).len(), 3);
    assert_eq!(shown(&store)[2], (Role::Assistant, String::new()));

    let chunks: [&[u8]; 3] = [
        b"data: {\"choices\":[{\"delta\":{\"content\":\"Hi\"}}]}\n",
        b"data: {\"choices\":[{\"delta\":{\"content\":\" there\"}}]}\n",
        b"data: [DONE]\n",
    ];
    let mut publishes: Vec<String> = Vec::new();
    for chunk in chunks {
        for payload in run.on_chunk(chunk, false) {
            if let Some(record) = parse_record(&payload) {
                if run.on_record(&mut store, &record) {
                    publishes.push(shown(&store)[2].1.clone());
                }
            }
        }
    }
    assert_eq!(publishes, vec!["Hi".to_string(), "Hi there".to_string()]);
    assert_eq!(run.residue(), "");
    run.on_stream_end(None);
    assert_eq!(run.phase(), Phase::Finalizing);
    assert!(run.finalize(&mut store));
    assert_eq!(run.phase(), Phase::Idle);
    assert!(!run.is_loading());
    assert_eq!(
        shown(&store),
        vec![
            (Role::System, "sys".to_string()),
            (Role::User, "Hello".to_string()),
            (Role::Assistant, "Hi there".to_string()),
        ]
    );
    assert!(store.messages_of("s1")[2].metrics.is_none());
}

#[test]
fn content_is_the_deltas_in_arrival_order_whatever_the_chunking() {
    let stream: &[u8] = b"data: {\"choices\":[{\"delta\":{\"content\":\"a\"}}]}\n\
data: {\"choices\":[{\"delta\":{}}]}\n\
data: not json\n\
data: {\"choices\":[{\"delta\":{\"content\":\"b\\nc\"}}]}\n\
data: {\"choices\":[]}\n\
data: {\"choices\":[{\"delta\":{\"content\":\"d\"}}]}\n\
data: [DONE]\n";
    for size in [1usize, 2, 5, 17, 64, 1000] {
        let mut store = brand_new();
        let mut run = send(&mut store, "q", "q", true);
        run.on_connected(&mut store);
        let mut publishes = 0;
        for chunk in stream.chunks(size) {
            for payload in run.on_chunk(chunk, false) {
                if let Some(record) = parse_record(&payload) {
                    if run.on_record(&mut store, &record) {
                        publishes += 1;
                    }
                }
            }
        }
        assert_eq!(publishes, 3, "chunks of {}", size);
        assert_eq!(shown(&store)[2].1, "ab\ncd", "chunks of {}", size);
        assert_eq!(run.transcript()[2].content, "ab\ncd");
    }
}

#[test]
fn records_without_text_publish_nothing() {
    let mut store = brand_new();
    let mut run = send(&mut store, "q", "q", true);
    run.on_connected(&mut store);
    let empty = StreamResponse { choices: Vec::new(), metrics: MessageMetrics::default() };
    assert!(!run.on_record(&mut store, &empty));
    let silent = StreamResponse {
        choices: vec![StreamChoice { delta: StreamDelta { content: None } }],
        metrics: MessageMetrics::default(),
    };
    assert!(!run.on_record(&mut store, &silent));
    assert!(run.on_record(&mut store, &delta("")));
    assert_eq!(shown(&store)[2].1, "");
}

#[test]
fn metrics_are_the_latest_known_and_attached_once() {
    let mut store = brand_new();
    let mut run = send(&mut store, "q", "q", true);
    run.on_connected(&mut store);
    let mut first = delta("x");
    first.metrics.id = Some("id-1".to_string());
    first.metrics.model = Some("m".to_string());
    run.on_record(&mut store, &first);
    let mut second = delta("y");
    second.metrics.id = Some("id-2".to_string());
    run.on_record(&mut store, &second);
    assert_eq!(run.metrics().id.as_deref(), Some("id-2"));
    assert_eq!(run.metrics().model.as_deref(), Some("m"));
    let payloads = run.on_chunk(
        b"{\"choices\":[],\"usage\":{\"prompt_tokens\":3,\"completion_tokens\":4,\"total_tokens\":7}}",
        false,
    );
    assert!(payloads.is_empty());
    let residual = parse_record(&run.residue());
    assert!(residual.is_some());
    run.on_stream_end(residual.as_ref());
    assert!(store.messages_of("s1")[2].metrics.is_none());
    assert!(run.finalize(&mut store));
    let last = store.messages_of("s1");
    let metrics = last[2].metrics.as_ref().unwrap();
    assert_eq!(
        metrics.usage,
        Some(Usage { prompt_tokens: 3, completion_tokens: 4, total_tokens: 7 })
    );
    assert_eq!(metrics.id.as_deref(), Some("id-2"));
    assert_eq!(metrics.model.as_deref(), Some("m"));
    assert_eq!(last[2].content, "xy");
    assert!(!run.finalize(&mut store));
    assert_eq!(run.phase(), Phase::Idle);
}

#[test]
fn cancellation_aborts_and_keeps_the_partial_message() {
    let mut store = brand_new();
    let mut run = send(&mut store, "q", "q", true);
    run.on_connected(&mut store);
    for payload in run.on_chunk(b"data: {\"choices\":[{\"delta\":{\"content\":\"par\"}}]}\n", false) {
        run.on_record(&mut store, &parse_record(&payload).unwrap());
    }
    let dropped =
        run.on_chunk(b"data: {\"choices\":[{\"delta\":{\"content\":\"tial\"}}]}\n", true);
    assert!(dropped.is_empty());
    assert_eq!(run.phase(), Phase::Aborted);
    assert!(!run.is_loading());
    assert!(!run.on_record(&mut store, &delta("late")));
    assert!(run.on_chunk(b"data: x\n", false).is_empty());
    assert!(!run.finalize(&mut store));
    assert_eq!(shown(&store)[2], (Role::Assistant, "par".to_string()));
}

fn answer(text: &str) -> ChatResponse {
    let mut metrics = MessageMetrics::default();
    metrics.timings = Some(Timings {
        prompt_n: 1,
        prompt_ms: 2,
        prompt_per_second: 3,
        predicted_n: 4,
        predicted_ms: 5,
        predicted_per_second: 6,
    });
    ChatResponse {
        choices: vec![ChatChoice { message: Message::new(Role::Assistant, text.to_string()) }],
        metrics,
    }
}

#[test]
fn complete_response_is_appended_once() {
    let mut store = brand_new();
    let mut run = send(&mut store, "q", "q", false);
    assert!(!run.on_connected(&mut store));
    assert_eq!(run.phase(), Phase::AwaitingFullResponse);
    assert_eq!(shown(&store).len(), 2);
    assert!(run.on_full_response(&mut store, Some(&answer("full")), false));
    assert_eq!(run.phase(), Phase::Finalizing);
    assert_eq!(shown(&store)[2], (Role::Assistant, "full".to_string()));
    assert!(run.finalize(&mut store));
    let last = store.messages_of("s1");
    assert_eq!(last[2].metrics.as_ref().unwrap().timings.unwrap().predicted_ms, 5);
    assert!(!run.on_full_response(&mut store, Some(&answer("again")), false));
    assert_eq!(store.messages_of("s1").len(), 3);
}

#[test]
fn cancelled_complete_response_leaves_the_transcript_unchanged() {
    let mut store = brand_new();
    let mut run = send(&mut store, "q", "q", false);
    run.on_connected(&mut store);
    let before = shown(&store);
    assert!(!run.on_full_response(&mut store, Some(&answer("full")), true));
    assert_eq!(shown(&store), before);
    assert!(run.finalize(&mut store));
    assert_eq!(shown(&store), before);
    assert_eq!(run.transcript().len(), 2);
    assert!(!run.is_loading());
}

#[test]
fn response_without_choice_appends_nothing() {
    let mut store = brand_new();
    let mut run = send(&mut store, "q", "q", false);
    run.on_connected(&mut store);
    let none = ChatResponse { choices: Vec::new(), metrics: MessageMetrics::default() };
    assert!(!run.on_full_response(&mut store, Some(&none), false));
    assert_eq!(run.phase(), Phase::Finalizing);
    assert_eq!(shown(&store).len(), 2);
    let mut other = send(&mut store, "r", "r", false);
    other.on_connected(&mut store);
    assert!(!other.on_full_response(&mut store, None, false));
    assert_eq!(shown(&store).len(), 3);
}

#[test]
fn transport_failure_becomes_a_system_message() {
    let mut store = brand_new();
    let mut run = send(&mut store, "q", "q", true);
    assert!(run.on_failure(&mut store, "connection refused", false));
    assert_eq!(run.phase(), Phase::Finalizing);
    assert_eq!(shown(&store)[2], (Role::System, "connection refused".to_string()));
    assert!(run.finalize(&mut store));
    assert!(store.messages_of("s1")[2].metrics.is_none());
    assert!(!run.on_failure(&mut store, "again", false));
    assert_eq!(shown(&store).len(), 3);
}

#[test]
fn transport_failure_after_cancellation_is_silent() {
    let mut store = brand_new();
    let mut run = send(&mut store, "q", "q", false);
    run.on_connected(&mut store);
    assert!(!run.on_failure(&mut store, "timeout", true));
    assert_eq!(shown(&store).len(), 2);
    assert_eq!(run.phase(), Phase::Finalizing);
}

#[test]
fn display_and_outbound_copies_differ() {
    let mut store = brand_new();
    let run = send(&mut store, "shown", "sent", true);
    assert_eq!(shown(&store)[1].1, "shown");
    let request = run.request("model-x");
    assert_eq!(request.model, "model-x");
    assert_eq!(request.temperature_milli, 700);
    assert!(request.stream);
    assert_eq!(request.messages.len(), 2);
    assert_eq!(request.messages[0].content, "sys");
    assert_eq!(request.messages[1].role, Role::User);
    assert_eq!(request.messages[1].content, "sent");
    assert_eq!(run.session_id(), "s1");
}

#[test]
fn events_out_of_turn_change_nothing() {
    let mut store = brand_new();
    let mut run = send(&mut store, "q", "q", true);
    assert!(run.on_chunk(b"data: x\n", false).is_empty());
    assert!(!run.on_record(&mut store, &delta("x")));
    assert!(!run.on_full_response(&mut store, Some(&answer("a")), false));
    run.on_stream_end(None);
    assert!(!run.finalize(&mut store));
    assert_eq!(run.phase(), Phase::Sending);
    assert_eq!(shown(&store).len(), 2);
    run.on_connected(&mut store);
    assert!(!run.on_connected(&mut store));
    assert_eq!(shown(&store).len(), 3);
}

#[test]
fn unknown_session_is_not_created() {
    let mut store = brand_new();
    let mut run = Completion::begin(&mut store, "other", Vec::new(), "q", "q", true);
    run.on_connected(&mut store);
    run.on_record(&mut store, &delta("x"));
    assert_eq!(store.sessions.len(), 1);
    assert_eq!(shown(&store).len(), 1);
    assert_eq!(run.transcript()[1].content, "x");
}

#[test]
fn metrics_merge_and_emptiness() {
    let mut held = MessageMetrics::default();
    assert!(held.is_empty());
    let mut later = MessageMetrics::default();
    later.created = Some(9);
    later.system_fingerprint = Some("fp".to_string());
    held.merge(&later);
    assert!(!held.is_empty());
    assert_eq!(held.created, Some(9));
    held.merge(&MessageMetrics::default());
    assert_eq!(held.created, Some(9));
    assert_eq!(held.system_fingerprint.as_deref(), Some("fp"));
    assert_eq!(Role::Assistant.as_str(), "assistant");
    assert_eq!(Role::User.as_str(), "user");
    assert_eq!(Role::System.as_str(), "system");
}
