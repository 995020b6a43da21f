use deepseek_api::error::{DecodeError, SessionError};
use deepseek_api::framer::Framer;
use deepseek_api::reassembly::{relay_end, relay_fragment, Reassembler};
use deepseek_api::worker::{ReceivedDelta, Worker, WorkerState};

fn delta(content: &str, finished: bool) -> ReceivedDelta {
    ReceivedDelta { content: content.to_string(), finished }
}

fn event(content: &str, finish: &str) -> String {
    format!(
        "data: {{\"id\":\"x\",\"model\":\"m\",\"choices\":[{{\"index\":0,\"delta\":{{\"content\":\"{}\"}},\"finish_reason\":{}}}]}}\n\n",
        content, finish
    )
}

#[test]
fn push_hands_on_up_to_the_last_blank_line() {
    let mut r = Reassembler::new();
    assert_eq!(r.push(b"data: a"), b"");
    assert_eq!(r.pending, b"data: a");
    assert_eq!(r.push(b"\n"), b"");
    assert_eq!(r.push(b"\ndata: b\n\ndata"), b"data: a\n\ndata: b\n\n");
    assert_eq!(r.pending, b"data");
    assert_eq!(r.push(b""), b"");
    assert_eq!(r.pending, b"data");
    assert_eq!(r.push(b": c\n\n"), b"data: c\n\n");
    assert_eq!(r.pending, b"");
    assert_eq!(r.finish(), b"");
}

#[test]
fn push_edge_cases() {
    let mut r = Reassembler::new();
    assert_eq!(r.push(b"\n"), b"");
    assert_eq!(r.push(b"\n"), b"\n\n");
    assert_eq!(r.pending, b"");
    assert_eq!(r.push(b"a\n\n\n"), b"a\n\n\n");
    assert_eq!(r.pending, b"");
    assert_eq!(r.push(b"a\n\nb\n"), b"a\n\n");
    assert_eq!(r.pending, b"b\n");
    assert_eq!(r.finish(), b"b\n");
    assert_eq!(r.pending, b"");
}

#[test]
fn a_whole_buffer_passes_unchanged() {
    let buffer = format!("{}{}", event("a", "null"), event("b", "null"));
    let mut r = Reassembler::new();
    assert_eq!(r.push(buffer.as_bytes()), buffer.as_bytes());
    assert!(r.pending.is_empty());
}

#[test]
fn any_cut_gives_the_same_chunks() {
    let stream = format!(
        "{}{}{}data: [DONE]\n\n",
        event("Hel", "null"),
        event("lo 你好", "null"),
        event("!", "\"stop\"")
    );
    let bytes = stream.as_bytes();
    let mut whole = Framer::new();
    let expected = whole.feed(bytes);
    assert_eq!(expected.len(), 3);
    for k in 0..=bytes.len() {
        let mut r = Reassembler::new();
        let mut framer = Framer::new();
        let mut got = Vec::new();
        for part in [&bytes[..k], &bytes[k..]] {
            let ready = r.push(part);
            if !ready.is_empty() {
                got.extend(framer.feed(&ready));
            }
        }
        assert!(r.pending.is_empty());
        assert_eq!(got, expected);
        assert_eq!(framer.state, whole.state);
    }
}

#[test]
fn any_two_cuts_give_the_same_deltas() {
    let stream = format!(
        "{}{}{}data: [DONE]\n\n",
        event("Hel", "null"),
        event("lo", "null"),
        event("!", "\"stop\"")
    );
    let bytes = stream.as_bytes();
    let expected = vec![delta("Hel", false), delta("lo", false), delta("!", true)];
    for i in (0..=bytes.len()).step_by(7) {
        for j in (i..=bytes.len()).step_by(5) {
            let mut worker = Worker::new();
            let mut pending = Reassembler::new();
            let mut got = Vec::new();
            got.extend(relay_fragment(&mut worker, &mut pending, &bytes[..i]));
            got.extend(relay_fragment(&mut worker, &mut pending, &bytes[i..j]));
            got.extend(relay_fragment(&mut worker, &mut pending, &bytes[j..]));
            got.extend(relay_end(&mut worker, &mut pending));
            assert_eq!(got, expected);
            assert_eq!(worker.state, WorkerState::Finished);
        }
    }
}

#[test]
fn the_end_flushes_what_was_kept() {
    let mut worker = Worker::new();
    let mut pending = Reassembler::new();
    let last = event("a", "null");
    let cut = &last.as_bytes()[..last.len() - 2];
    assert!(relay_fragment(&mut worker, &mut pending, cut).is_empty());
    assert_eq!(worker.state, WorkerState::Running);
    assert_eq!(relay_end(&mut worker, &mut pending), vec![delta("a", false)]);
    assert_eq!(worker.state, WorkerState::Finished);
    assert!(pending.pending.is_empty());
}

#[test]
fn the_end_with_nothing_kept_finishes() {
    for kept in ["", " ", "\n", " \r\n\t"] {
        let mut worker = Worker::new();
        let mut pending = Reassembler::new();
        assert!(relay_fragment(&mut worker, &mut pending, kept.as_bytes()).is_empty());
        assert!(relay_end(&mut worker, &mut pending).is_empty());
        assert_eq!(worker.state, WorkerState::Finished);
    }
}

#[test]
fn the_end_with_half_an_event_fails() {
    let mut worker = Worker::new();
    let mut pending = Reassembler::new();
    assert!(relay_fragment(&mut worker, &mut pending, b"data: {\"id\":").is_empty());
    assert_eq!(relay_end(&mut worker, &mut pending), vec![delta("", true)]);
    assert_eq!(
        worker.state,
        WorkerState::Failed(SessionError::Decode(DecodeError::Json))
    );
}

#[test]
fn fragments_after_the_end_of_a_session_are_dropped() {
    let mut worker = Worker::new();
    let mut pending = Reassembler::new();
    let out = relay_fragment(&mut worker, &mut pending, event("a", "\"stop\"").as_bytes());
    assert_eq!(out, vec![delta("a", true)]);
    assert_eq!(worker.state, WorkerState::Finished);
    assert!(relay_fragment(&mut worker, &mut pending, event("b", "null").as_bytes()).is_empty());
    assert!(relay_end(&mut worker, &mut pending).is_empty());
    assert_eq!(worker.state, WorkerState::Finished);
}
