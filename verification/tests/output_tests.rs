use debug_session::{OutputBuffer, OutputEvent, OutputToken, MAX_TRACKED_OUTPUT_EVENTS};

fn event(text: &str) -> OutputEvent {
    OutputEvent { category: None, output: text.to_string(), variables_reference: None }
}

#[test]
fn tokens_count_appends() {
    let mut buffer = OutputBuffer::new();
    assert_eq!(buffer.token(), OutputToken(0));
    buffer.push(event("a"));
    buffer.push(event("b"));
    assert_eq!(buffer.token(), OutputToken(2));
    assert!(buffer.has_new_output(OutputToken(0)));
    assert!(!buffer.has_new_output(OutputToken(2)));
}

#[test]
fn output_since_returns_exactly_the_new_events() {
    let mut buffer = OutputBuffer::new();
    for i in 0..5 {
        buffer.push(event(&format!("e{i}")));
    }
    let (all, token) = buffer.output(OutputToken(0));
    assert_eq!(token, OutputToken(5));
    assert_eq!(all.len(), 5);
    assert_eq!(all[0].output, "e0");
    assert_eq!(all[4].output, "e4");

    let (tail, token) = buffer.output(OutputToken(3));
    assert_eq!(token, OutputToken(5));
    assert_eq!(tail.len(), 2);
    assert_eq!(tail[0].output, "e3");
    assert_eq!(tail[1].output, "e4");

    let (none, _) = buffer.output(OutputToken(5));
    assert_eq!(none.len(), 0);
}

#[test]
fn output_since_future_token_is_empty() {
    let mut buffer = OutputBuffer::new();
    buffer.push(event("x"));
    let (events, token) = buffer.output(OutputToken(10));
    assert_eq!(events.len(), 0);
    assert_eq!(token, OutputToken(1));
}

#[test]
fn capacity_overflow_drops_oldest_but_token_keeps_counting() {
    let mut buffer = OutputBuffer::new();
    let total = MAX_TRACKED_OUTPUT_EVENTS + 3;
    for i in 0..total {
        buffer.push(event(&format!("e{i}")));
    }
    assert_eq!(buffer.token(), OutputToken(total));

    // Everything still within capacity is returned, oldest first.
    let (events, token) = buffer.output(OutputToken(0));
    assert_eq!(token, OutputToken(total));
    assert_eq!(events.len(), MAX_TRACKED_OUTPUT_EVENTS);
    assert_eq!(events[0].output, "e3");
    assert_eq!(events[MAX_TRACKED_OUTPUT_EVENTS - 1].output, format!("e{}", total - 1));

    // A reader that saw the first three events missed nothing else.
    let (events, _) = buffer.output(OutputToken(3));
    assert_eq!(events.len(), MAX_TRACKED_OUTPUT_EVENTS);

    // A reader inside the retained window gets exactly the remainder.
    let (events, _) = buffer.output(OutputToken(total - 2));
    assert_eq!(events.len(), 2);
    assert_eq!(events[0].output, format!("e{}", total - 2));
}
