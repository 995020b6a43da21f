use deepseek_api::bridge::{default_dialog, Bridge};
use deepseek_api::display::{fold_deltas, visible_messages, MessageRole, Side};
use deepseek_api::error::{DecodeError, SessionError};
use deepseek_api::framer::{Framer, StreamState};
use deepseek_api::framing::{is_sentinel, payload_of, split_events_of, trim_whitespace};
use deepseek_api::request::Message;
use deepseek_api::streaming::Chunk;
use deepseek_api::tags::Role;
use deepseek_api::worker::{relay_chunks, ReceivedDelta, Worker, WorkerState};

fn delta(content: &str, finished: bool) -> ReceivedDelta {
    ReceivedDelta { content: content.to_string(), finished }
}

fn event(content: &str, finish: &str) -> String {
    format!(
        "data: {{\"id\":\"x\",\"model\":\"m\",\"choices\":[{{\"index\":0,\"delta\":{{\"content\":\"{}\"}},\"finish_reason\":{}}}]}}\n\n",
        content, finish
    )
}

#[test]
fn trim_agrees_with_str_trim() {
    let samples = [
        "",
        " ",
        "x",
        "  x  ",
        "\t\r\n x y \u{b}\u{c}\n",
        "\u{85}\u{a0}a\u{1680}b\u{2000}\u{200a}\u{2028}\u{2029}\u{202f}\u{205f}\u{3000}",
        "\u{3000}\u{2003} 你好 \u{2009}\u{a0}",
        "\u{200b}x\u{200b}",
        "ぅ",
        " ぅ ",
        "\u{feff}x",
        "data: [DONE]\n\n",
        " \u{a0} ",
    ];
    for s in samples {
        assert_eq!(trim_whitespace(s.as_bytes()), s.trim().as_bytes());
    }
}

#[test]
fn trim_exact_values() {
    assert_eq!(trim_whitespace(b" \t\r\n x y \n\n"), b"x y");
    assert_eq!(trim_whitespace(b"   "), b"");
    assert_eq!(trim_whitespace(b""), b"");
    assert_eq!(trim_whitespace("\u{3000}a\u{a0}".as_bytes()), b"a");
    assert_eq!(trim_whitespace(b"a"), b"a");
}

#[test]
fn split_agrees_with_str_split() {
    let samples = [
        "",
        "a",
        "\n",
        "\n\n",
        "\n\n\n",
        "\n\n\n\n",
        "a\n\nb",
        "a\n\n\nb",
        "a\nb\n\nc\n",
        "a\n\n",
        "\n\na",
        "data: x\n\ndata: y\n\ndata: z",
        "你\n\n好",
    ];
    for s in samples {
        let expected: Vec<Vec<u8>> = s.split("\n\n").map(|p| p.as_bytes().to_vec()).collect();
        assert_eq!(split_events_of(s.as_bytes()), expected);
    }
}

#[test]
fn split_exact_values() {
    assert_eq!(split_events_of(b""), vec![b"".to_vec()]);
    assert_eq!(split_events_of(b"a\n\n\nb"), vec![b"a".to_vec(), b"\nb".to_vec()]);
    assert_eq!(split_events_of(b"\n\n"), vec![b"".to_vec(), b"".to_vec()]);
    assert_eq!(
        split_events_of(b"a\n\nb\n\nc"),
        vec![b"a".to_vec(), b"b".to_vec(), b"c".to_vec()]
    );
}

#[test]
fn payload_needs_prefix_and_one_more_byte() {
    assert_eq!(payload_of(b"data: x"), Some(&b"x"[..]));
    assert_eq!(payload_of(b"data: [DONE]"), Some(&b"[DONE]"[..]));
    assert_eq!(payload_of(b"data: "), None);
    assert_eq!(payload_of(b"data:"), None);
    assert_eq!(payload_of(b""), None);
    assert_eq!(payload_of(b"data:  "), Some(&b" "[..]));
    assert_eq!(payload_of(b"Data: x"), None);
    assert_eq!(payload_of(b"data:xx"), None);
    assert_eq!(payload_of(b"event: x"), None);
    assert_eq!(payload_of(b": keep-alive"), None);
}

#[test]
fn sentinel_is_exactly_done() {
    assert!(is_sentinel(b"[DONE]"));
    assert!(!is_sentinel(b"[DONE] "));
    assert!(!is_sentinel(b"[done]"));
    assert!(!is_sentinel(b"DONE"));
    assert!(!is_sentinel(b""));
}

#[test]
fn framer_emits_every_event_of_a_buffer() {
    let buffer = format!("{}{}{}", event("a", "null"), event("b", "null"), event("c", "null"));
    let mut framer = Framer::new();
    let chunks = framer.feed(buffer.as_bytes());
    let texts: Vec<&str> = chunks.iter().map(|c| c.choices[0].delta.content.as_str()).collect();
    assert_eq!(texts, vec!["a", "b", "c"]);
    assert_eq!(framer.state, StreamState::Open);
}

#[test]
fn framer_stops_at_the_sentinel() {
    let buffer = format!("{}data: [DONE]\n\n{}", event("a", "null"), event("b", "null"));
    let mut framer = Framer::new();
    let chunks = framer.feed(buffer.as_bytes());
    assert_eq!(chunks.len(), 1);
    assert_eq!(chunks[0].choices[0].delta.content, "a");
    assert_eq!(framer.state, StreamState::Done);
    let more = framer.feed(event("c", "null").as_bytes());
    assert!(more.is_empty());
    assert_eq!(framer.state, StreamState::Done);
}

#[test]
fn framer_rejects_invalid_utf8() {
    let mut framer = Framer::new();
    let mut buffer = event("a", "null").into_bytes();
    buffer.push(0xFF);
    assert!(framer.feed(&buffer).is_empty());
    assert_eq!(framer.state, StreamState::Failed(DecodeError::InvalidUtf8));
    assert!(framer.feed(event("b", "null").as_bytes()).is_empty());
    assert_eq!(framer.state, StreamState::Failed(DecodeError::InvalidUtf8));

    let mut framer = Framer::new();
    assert!(framer.feed(&[0xE4, 0xBD]).is_empty());
    assert_eq!(framer.state, StreamState::Failed(DecodeError::InvalidUtf8));
}

#[test]
fn framer_rejects_short_or_unprefixed_events() {
    for buffer in ["", "   ", "data: ", "data:", "event: message\n\n", ": keep-alive\n\n"] {
        let mut framer = Framer::new();
        assert!(framer.feed(buffer.as_bytes()).is_empty());
        assert_eq!(framer.state, StreamState::Failed(DecodeError::Framing));
    }
}

#[test]
fn framer_keeps_what_came_before_a_failure() {
    let buffer = format!("{}data: {{broken\n\n{}", event("a", "null"), event("b", "null"));
    let mut framer = Framer::new();
    let chunks = framer.feed(buffer.as_bytes());
    assert_eq!(chunks.len(), 1);
    assert_eq!(chunks[0].choices[0].delta.content, "a");
    assert_eq!(framer.state, StreamState::Failed(DecodeError::Json));

    let buffer = format!("{}\n\n{}", event("a", "null"), event("b", "null"));
    let mut framer = Framer::new();
    let chunks = framer.feed(buffer.as_bytes());
    assert_eq!(chunks.len(), 1);
    assert_eq!(framer.state, StreamState::Failed(DecodeError::Framing));
}

#[test]
fn framer_trims_the_buffer_before_splitting() {
    let buffer = format!(" \r\n\u{a0}{}\u{3000} ", event("a", "null"));
    let mut framer = Framer::new();
    let chunks = framer.feed(buffer.as_bytes());
    assert_eq!(chunks.len(), 1);
    assert_eq!(framer.state, StreamState::Open);
}

#[test]
fn one_delta_per_event_before_the_sentinel() {
    for before in 0..5usize {
        for after in 0..3usize {
            let mut buffer = String::new();
            for i in 0..before {
                buffer.push_str(&event(&format!("e{}", i), "null"));
            }
            buffer.push_str("data: [DONE]\n\n");
            for i in 0..after {
                buffer.push_str(&event(&format!("late{}", i), "null"));
            }
            let mut framer = Framer::new();
            let chunks = framer.feed(buffer.as_bytes());
            assert_eq!(chunks.len(), before);
            for (i, chunk) in chunks.iter().enumerate() {
                assert_eq!(chunk.choices.len(), 1);
                assert_eq!(chunk.choices[0].delta.content, format!("e{}", i));
            }
            assert_eq!(framer.state, StreamState::Done);
        }
    }
}

#[test]
fn received_delta_carries_the_content() {
    for text in ["", "x", "line\nbreak", "你好 \"q\""] {
        let payload = format!(
            "{{\"id\":\"x\",\"model\":\"m\",\"choices\":[{{\"index\":0,\"delta\":{{\"content\":{}}}}}]}}",
            serde_json::to_string(text).unwrap()
        );
        let chunk = Chunk::parse(payload.as_bytes()).unwrap();
        assert_eq!(chunk.choices[0].delta.content, text);
        let d = ReceivedDelta::from_choice(&chunk.choices[0]);
        assert_eq!(d, delta(text, false));
        let (out, state) = relay_chunks(&vec![chunk], StreamState::Open);
        assert_eq!(out, vec![delta(text, false)]);
        assert_eq!(state, WorkerState::Running);
    }
    assert_eq!(ReceivedDelta::terminal(), delta("", true));
}

#[test]
fn worker_stops_after_the_finished_delta() {
    let buffer = format!("{}{}{}", event("a", "null"), event("b", "\"stop\""), event("c", "null"));
    let mut worker = Worker::new();
    let out = worker.on_buffer(buffer.as_bytes());
    assert_eq!(out, vec![delta("a", false), delta("b", true)]);
    assert_eq!(worker.state, WorkerState::Finished);
    assert!(worker.on_buffer(event("d", "null").as_bytes()).is_empty());
    assert_eq!(worker.state, WorkerState::Finished);
}

#[test]
fn worker_fails_on_a_chunk_without_exactly_one_choice() {
    let none = "data: {\"id\":\"x\",\"model\":\"m\",\"choices\":[]}\n\n";
    let two = "data: {\"id\":\"x\",\"model\":\"m\",\"choices\":[{\"index\":0,\"delta\":{\"content\":\"p\"}},{\"index\":1,\"delta\":{\"content\":\"q\"}}]}\n\n";
    for bad in [none, two] {
        let buffer = format!("{}{}{}", event("a", "null"), bad, event("c", "null"));
        let mut worker = Worker::new();
        let out = worker.on_buffer(buffer.as_bytes());
        assert_eq!(out, vec![delta("a", false), delta("", true)]);
        assert_eq!(
            worker.state,
            WorkerState::Failed(SessionError::ProtocolViolation)
        );
        assert!(worker.on_buffer(event("d", "null").as_bytes()).is_empty());
    }
}

#[test]
fn worker_reports_each_decoding_failure() {
    let cases: [(&[u8], DecodeError); 3] = [
        (&[0xC3, 0x28], DecodeError::InvalidUtf8),
        (b"dat", DecodeError::Framing),
        (b"data: []", DecodeError::Json),
    ];
    for (buffer, error) in cases {
        let mut worker = Worker::new();
        let out = worker.on_buffer(buffer);
        assert_eq!(out, vec![delta("", true)]);
        assert_eq!(worker.state, WorkerState::Failed(SessionError::Decode(error)));
    }
}

#[test]
fn worker_transport_failures() {
    let mut worker = Worker::new();
    assert!(worker.on_status(200).is_empty());
    assert_eq!(worker.state, WorkerState::Running);
    assert_eq!(worker.on_status(503), vec![delta("", true)]);
    assert_eq!(worker.state, WorkerState::Failed(SessionError::Transport));
    assert!(worker.on_status(503).is_empty());
    assert!(worker.on_transport_error().is_empty());

    let mut worker = Worker::new();
    assert_eq!(worker.on_buffer(event("a", "null").as_bytes()), vec![delta("a", false)]);
    assert_eq!(worker.on_transport_error(), vec![delta("", true)]);
    assert_eq!(worker.state, WorkerState::Failed(SessionError::Transport));
    worker.on_end();
    assert_eq!(worker.state, WorkerState::Failed(SessionError::Transport));
}

#[test]
fn worker_finishes_when_the_transport_ends() {
    let mut worker = Worker::new();
    assert_eq!(worker.on_buffer(event("a", "null").as_bytes()), vec![delta("a", false)]);
    worker.on_end();
    assert_eq!(worker.state, WorkerState::Finished);
    assert!(worker.on_buffer(event("b", "null").as_bytes()).is_empty());
}

#[test]
fn drain_shows_up_to_the_first_finished_delta() {
    let mut bridge = Bridge::new(Vec::new());
    assert!(bridge.dispatch("p").is_some());
    let shown = bridge.drain(
        vec![delta("a", false), delta("b", true), delta("c", false), delta("d", true)],
        false,
    );
    assert_eq!(shown, vec![delta("a", false), delta("b", true)]);
    assert!(!bridge.chatting);
    assert_eq!(bridge.dialog, vec![Message::user("p")]);
}

#[test]
fn drain_without_a_session_shows_nothing() {
    let mut bridge = Bridge::new(vec![Message::system("s")]);
    let shown = bridge.drain(vec![delta("a", false)], false);
    assert!(shown.is_empty());
    assert!(!bridge.chatting);
    assert_eq!(bridge.dialog, vec![Message::system("s")]);
}

#[test]
fn drain_keeps_the_session_while_nothing_ends_it() {
    let mut bridge = Bridge::new(Vec::new());
    assert!(bridge.dispatch("p").is_some());
    assert!(bridge.drain(Vec::new(), false).is_empty());
    assert!(bridge.chatting);
    assert_eq!(bridge.drain(vec![delta("a", false)], false), vec![delta("a", false)]);
    assert!(bridge.chatting);
    assert_eq!(bridge.drain(vec![delta("b", false)], true), vec![delta("b", false)]);
    assert!(!bridge.chatting);
}

#[test]
fn each_session_adds_one_user_message() {
    let mut bridge = Bridge::new(default_dialog());
    assert_eq!(
        bridge.dialog,
        vec![Message::system("你是一个智能助手。"), Message::user("你好！")]
    );
    let snapshot = bridge.dispatch("one").unwrap();
    assert_eq!(snapshot, bridge.dialog);
    assert_eq!(snapshot.len(), 3);
    assert_eq!(snapshot[2], Message::user("one"));
    bridge.drain(vec![delta("", true)], false);
    let snapshot = bridge.dispatch("two").unwrap();
    assert_eq!(snapshot.len(), 4);
    assert_eq!(snapshot[3], Message::user("two"));
}

#[test]
fn bubbles_follow_roles() {
    assert_eq!(MessageRole::from_role(Role::System), MessageRole::System);
    assert_eq!(MessageRole::from_role(Role::User), MessageRole::User);
    assert_eq!(MessageRole::from_role(Role::Assistant), MessageRole::Assistant);
    assert_eq!(MessageRole::User.side(), Side::End);
    assert_eq!(MessageRole::Assistant.side(), Side::Start);
}

#[test]
fn system_messages_are_not_shown() {
    let dialog = vec![
        Message::system("s"),
        Message::user("u"),
        Message::assistant("a"),
        Message::system("t"),
        Message::user("v"),
    ];
    assert_eq!(
        visible_messages(&dialog),
        vec![Message::user("u"), Message::assistant("a"), Message::user("v")]
    );
    assert!(visible_messages(&vec![Message::system("s")]).is_empty());
    assert!(visible_messages(&Vec::new()).is_empty());
}

#[test]
fn fold_joins_text_and_finds_the_end() {
    assert_eq!(fold_deltas(&Vec::new()), (String::new(), false));
    assert_eq!(
        fold_deltas(&vec![delta("Hel", false), delta("lo", false)]),
        ("Hello".to_string(), false)
    );
    assert_eq!(
        fold_deltas(&vec![delta("Hel", false), delta("lo", false), delta("!", true)]),
        ("Hello!".to_string(), true)
    );
    assert_eq!(
        fold_deltas(&vec![delta("a", true), delta("b", false)]),
        ("ab".to_string(), true)
    );
}

#[test]
fn trim_agrees_with_str_trim_on_every_character() {
    for code in 0..=0x10FFFFu32 {
        let Some(c) = char::from_u32(code) else {
            continue;
        };
        let alone = c.to_string();
        assert_eq!(trim_whitespace(alone.as_bytes()), alone.trim().as_bytes());
        let around = format!("{}x \u{2003}{}y{}", c, c, c);
        assert_eq!(trim_whitespace(around.as_bytes()), around.trim().as_bytes());
    }
}

#[test]
fn a_running_worker_with_a_closed_stream_ends_at_the_next_buffer() {
    let mut worker = Worker::new();
    worker.framer.state = StreamState::Done;
    assert!(worker.on_buffer(event("a", "null").as_bytes()).is_empty());
    assert_eq!(worker.state, WorkerState::Finished);

    let mut worker = Worker::new();
    worker.framer.state = StreamState::Failed(DecodeError::Framing);
    assert_eq!(worker.on_buffer(event("a", "null").as_bytes()), vec![delta("", true)]);
    assert_eq!(
        worker.state,
        WorkerState::Failed(SessionError::Decode(DecodeError::Framing))
    );
}
