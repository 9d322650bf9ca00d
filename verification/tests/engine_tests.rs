use neko::engine::{
    append_output_to_history, compose_tool_output, strip_reasoning, trim_history, TurnOutcome,
    TurnState,
};
use neko::items::{ContentPart, Item, OutputItem, Response, ResponseStatus, Role, Usage};
use neko::json::Json;

fn text_response(id: &str, text: &str) -> Response {
    Response {
        id: id.to_string(),
        status: ResponseStatus::Completed,
        output: vec![OutputItem::Message {
            id: "msg_1".to_string(),
            role: Role::Assistant,
            content: vec![ContentPart::OutputText { text: text.to_string() }],
        }],
        usage: Some(Usage { input_tokens: 7, output_tokens: 3, total_tokens: 10 }),
        error: None,
    }
}

fn call_response(id: &str, call_id: &str, name: &str, arguments: &str) -> Response {
    Response {
        id: id.to_string(),
        status: ResponseStatus::Completed,
        output: vec![OutputItem::FunctionCall {
            id: "fc_1".to_string(),
            call_id: call_id.to_string(),
            name: name.to_string(),
            arguments: arguments.to_string(),
        }],
        usage: None,
        error: None,
    }
}

#[test]
fn tool_use_loop_scenario() {
    // One tool `echo(x) -> x`, three iterations allowed.
    let mut state = TurnState::begin(Vec::new(), "say hi", None, 3, 100);
    let input = state.next_input();
    assert_eq!(input.len(), 1);

    let r1 = call_response("resp_1", "call_1", "echo", "{\"x\":\"hi\"}");
    let outcome = state.on_response(&r1);
    let calls = match outcome {
        TurnOutcome::Continue { calls } => calls,
        _ => panic!("expected tool calls"),
    };
    assert_eq!(calls.len(), 1);
    assert_eq!(calls[0].1, "echo");

    let echoed = compose_tool_output(false, "hi");
    let ok = state.record_outputs(&vec![(calls[0].0.clone(), echoed)]);
    assert!(ok);

    let r2 = text_response("resp_2", "hi");
    let result = match state.on_response(&r2) {
        TurnOutcome::Finished { result } => result,
        _ => panic!("expected a finished turn"),
    };
    assert_eq!(result.text, "hi");
    assert_eq!(result.last_response_id.as_deref(), Some("resp_2"));

    let kinds: Vec<&'static str> = result
        .history
        .iter()
        .map(|i| match i {
            Item::Message { role: Role::User, .. } => "user",
            Item::Message { role: Role::Assistant, .. } => "assistant",
            Item::FunctionCall { .. } => "call",
            Item::FunctionCallOutput { .. } => "output",
            _ => "other",
        })
        .collect();
    assert_eq!(kinds, vec!["user", "call", "output", "assistant"]);
}

#[test]
fn reasoning_is_not_recorded_in_history() {
    let mut state = TurnState::begin(Vec::new(), "hello", Some("prev_1".to_string()), 3, 100);
    // With a chained id, only the new user message is sent.
    let input = state.next_input();
    assert_eq!(input.len(), 1);

    let response = Response {
        id: "resp_9".to_string(),
        status: ResponseStatus::Completed,
        output: vec![
            OutputItem::Reasoning(Json::Null),
            OutputItem::Message {
                id: "m".to_string(),
                role: Role::Assistant,
                content: vec![ContentPart::OutputText { text: "done".to_string() }],
            },
        ],
        usage: None,
        error: None,
    };
    let result = match state.on_response(&response) {
        TurnOutcome::Finished { result } => result,
        _ => panic!("expected a finished turn"),
    };
    assert!(result.history.iter().all(|i| !matches!(i, Item::Reasoning(_) | Item::Other(_))));
    assert_eq!(result.last_response_id.as_deref(), Some("resp_9"));
}

#[test]
fn failed_response_aborts_with_provider_message() {
    let mut state = TurnState::begin(Vec::new(), "hello", None, 3, 100);
    let response = Response {
        id: "resp_err".to_string(),
        status: ResponseStatus::Failed,
        output: Vec::new(),
        usage: None,
        error: Some(neko::items::ApiError {
            code: "overloaded".to_string(),
            message: "try later".to_string(),
        }),
    };
    match state.on_response(&response) {
        TurnOutcome::Failed { message } => assert_eq!(message, "try later"),
        _ => panic!("expected failure"),
    }
}

#[test]
fn exhausted_iterations_give_the_agent_error() {
    let mut state = TurnState::begin(Vec::new(), "go", None, 1, 100);
    let r1 = call_response("resp_1", "call_1", "echo", "{}");
    match state.on_response(&r1) {
        TurnOutcome::Continue { calls } => {
            let out = compose_tool_output(true, "boom");
            assert!(out.starts_with("[ERROR] "));
            assert!(state.record_outputs(&vec![(calls[0].0.clone(), out)]));
        },
        _ => panic!("expected calls"),
    }
    assert!(state.exhausted());
    let err = state.iterations_error();
    assert_eq!(err.message(), "Agent loop exceeded 1 iterations");
}

fn msg(text: &str) -> Item {
    Item::Message { role: Role::User, content: text.to_string() }
}

#[test]
fn trim_drops_oldest_first_exactly() {
    // One over the bound: exactly one dropped.
    let mut h = vec![msg("a"), msg("b"), msg("c"), msg("d")];
    trim_history(&mut h, 3);
    assert_eq!(h.len(), 3);
    assert!(matches!(&h[0], Item::Message { content, .. } if content == "b"));

    // Two over the bound: the two oldest dropped.
    let mut h2 = vec![msg("a"), msg("b"), msg("c"), msg("d"), msg("e")];
    trim_history(&mut h2, 3);
    assert_eq!(h2.len(), 3);
    assert!(matches!(&h2[0], Item::Message { content, .. } if content == "c"));
}

#[test]
fn trim_never_splits_a_call_from_its_output() {
    let call = Item::FunctionCall {
        id: "i".to_string(),
        call_id: "c1".to_string(),
        name: "echo".to_string(),
        arguments: "{}".to_string(),
    };
    let output = Item::FunctionCallOutput { call_id: "c1".to_string(), output: "x".to_string() };
    let mut h = vec![call, output, msg("a"), msg("b")];
    // Cut lands between the call and its output: the orphan output goes too.
    trim_history(&mut h, 3);
    assert_eq!(h.len(), 2);
    assert!(matches!(&h[0], Item::Message { content, .. } if content == "a"));
}

#[test]
fn strip_removes_opaque_items() {
    let mut h = vec![msg("a"), Item::Reasoning(Json::Null), Item::Other(Json::Bool(true)), msg("b")];
    strip_reasoning(&mut h);
    assert_eq!(h.len(), 2);
}

#[test]
fn empty_assistant_messages_are_not_recorded() {
    let mut h: Vec<Item> = Vec::new();
    let out = vec![OutputItem::Message {
        id: "m".to_string(),
        role: Role::Assistant,
        content: vec![ContentPart::Refusal { refusal: "no".to_string() }],
    }];
    append_output_to_history(&mut h, &out);
    assert_eq!(h.len(), 0);
}

#[test]
fn response_text_joins_parts_with_newlines() {
    let r = Response {
        id: "r".to_string(),
        status: ResponseStatus::Completed,
        output: vec![
            OutputItem::Message {
                id: "m1".to_string(),
                role: Role::Assistant,
                content: vec![
                    ContentPart::OutputText { text: "one".to_string() },
                    ContentPart::OutputText { text: "two".to_string() },
                ],
            },
        ],
        usage: None,
        error: None,
    };
    assert_eq!(r.text(), "one\ntwo");
    assert_eq!(r.function_calls().len(), 0);
}

#[test]
fn record_outputs_refuses_mismatched_ids() {
    let mut state = TurnState::begin(Vec::new(), "go", None, 3, 100);
    let r1 = call_response("resp_1", "call_1", "echo", "{}");
    match state.on_response(&r1) {
        TurnOutcome::Continue { .. } => {},
        _ => panic!("expected calls"),
    }
    assert!(!state.record_outputs(&vec![("other".to_string(), "x".to_string())]));
    assert!(state.record_outputs(&vec![("call_1".to_string(), "x".to_string())]));
}
