use fncall_agent::dispatch::{DispatchLoop, Step, DEFAULT_DISPATCH_LIMIT};
use fncall_agent::message::{follow_up_request, ChatResponse, Choice, Message, Role};
use fncall_agent::registry::{Entry, HandlerId, Registry};

fn said(text: &str) -> Choice {
    Choice { message: Some(Message { role: Role::Assistant, content: text.to_string() }), text: None }
}

fn reply(texts: &[&str]) -> ChatResponse {
    ChatResponse { choices: texts.iter().map(|t| said(t)).collect() }
}

const CALC: &str = "<function=calculate{\"a\": 6, \"b\": 3, \"operation\": \"+\"}>";

#[test]
fn plain_reply_is_answered_verbatim() {
    let reg = Registry::standard();
    let mut l = DispatchLoop::new(DEFAULT_DISPATCH_LIMIT);
    l.receive(reply(&["Hello there {not a marker}"]));
    match l.next_step(&reg) {
        Step::Answer(t) => assert_eq!(t, "Hello there {not a marker}"),
        _ => panic!("expected an answer"),
    }
    assert!(matches!(l.next_step(&reg), Step::Finished));
    assert_eq!(l.dispatched(), 0);
}

#[test]
fn unregistered_name_is_reported_the_same_each_time() {
    let reg = Registry::standard();
    for _ in 0..2 {
        let mut l = DispatchLoop::new(DEFAULT_DISPATCH_LIMIT);
        l.receive(reply(&["<function=weather{\"city\": \"Oslo\"}>"]));
        match l.next_step(&reg) {
            Step::HandlerNotFound { name } => assert_eq!(name, "weather"),
            _ => panic!("expected handler not found"),
        }
        assert!(matches!(l.next_step(&reg), Step::Finished));
        assert_eq!(l.dispatched(), 0);
    }
}

#[test]
fn malformed_parameters_are_reported() {
    let reg = Registry::standard();
    let mut l = DispatchLoop::new(DEFAULT_DISPATCH_LIMIT);
    l.receive(reply(&["<function=calculate{a: 6, b: 3}>"]));
    match l.next_step(&reg) {
        Step::MalformedParameters { name, params } => {
            assert_eq!(name, "calculate");
            assert_eq!(params, "{a: 6, b: 3}");
        }
        _ => panic!("expected malformed parameters"),
    }
    assert_eq!(l.dispatched(), 0);
}

#[test]
fn calculator_marker_is_dispatched_and_continued() {
    let reg = Registry::standard();
    let mut l = DispatchLoop::new(DEFAULT_DISPATCH_LIMIT);
    l.receive(reply(&[CALC]));
    let call = match l.next_step(&reg) {
        Step::Dispatch(c) => c,
        _ => panic!("expected a dispatch"),
    };
    assert_eq!(call.handler, HandlerId::Calculate);
    assert_eq!(call.name, "calculate");
    assert_eq!(call.params_text, "{\"a\": 6, \"b\": 3, \"operation\": \"+\"}");
    assert_eq!(call.params["a"].as_f64(), Some(6.0));
    assert_eq!(call.params["operation"].as_str(), Some("+"));
    assert_eq!(l.dispatched(), 1);

    let req = follow_up_request("some-model", "The result of 6 + 3 is 9".to_string());
    assert_eq!(req.messages.len(), 1);
    assert_eq!(req.messages[0].role, Role::User);
    assert_eq!(req.messages[0].content, "The result of 6 + 3 is 9");
    assert!(req.tools.is_empty());
    assert_eq!(req.tool_choice, "auto");
    assert_eq!(req.model, "some-model");

    l.receive(reply(&["6 plus 3 is 9."]));
    match l.next_step(&reg) {
        Step::Answer(t) => assert_eq!(t, "6 plus 3 is 9."),
        _ => panic!("expected an answer"),
    }
    assert!(matches!(l.next_step(&reg), Step::Finished));
}

#[test]
fn choices_are_handled_in_order_depth_first() {
    let reg = Registry::standard();
    let mut l = DispatchLoop::new(DEFAULT_DISPATCH_LIMIT);
    l.receive(reply(&[CALC, "second choice"]));
    assert!(matches!(l.next_step(&reg), Step::Dispatch(_)));
    l.receive(reply(&["reply to first", "another reply"]));
    let mut seen = Vec::new();
    loop {
        match l.next_step(&reg) {
            Step::Answer(t) => seen.push(t),
            Step::Finished => break,
            _ => panic!("unexpected step"),
        }
    }
    assert_eq!(seen, vec!["reply to first", "another reply", "second choice"]);
}

#[test]
fn dispatch_limit_stops_continuation() {
    let reg = Registry::standard();
    let mut l = DispatchLoop::new(1);
    l.receive(reply(&[CALC]));
    assert!(matches!(l.next_step(&reg), Step::Dispatch(_)));
    l.receive(reply(&[CALC]));
    match l.next_step(&reg) {
        Step::LimitReached { name } => assert_eq!(name, "calculate"),
        _ => panic!("expected the limit"),
    }
    assert_eq!(l.dispatched(), 1);
    assert!(!l.has_pending());
}

#[test]
fn raw_text_is_used_when_message_is_absent() {
    let reg = Registry::standard();
    let mut l = DispatchLoop::new(DEFAULT_DISPATCH_LIMIT);
    l.receive(ChatResponse {
        choices: vec![
            Choice { message: None, text: Some("raw answer".to_string()) },
            Choice { message: None, text: None },
            Choice { message: Some(Message { role: Role::Assistant, content: "msg".to_string() }), text: Some("ignored".to_string()) },
        ],
    });
    match l.next_step(&reg) {
        Step::Answer(t) => assert_eq!(t, "raw answer"),
        _ => panic!("expected an answer"),
    }
    assert!(matches!(l.next_step(&reg), Step::Skip));
    match l.next_step(&reg) {
        Step::Answer(t) => assert_eq!(t, "msg"),
        _ => panic!("expected an answer"),
    }
}

#[test]
fn substitute_registry_routes_other_names() {
    let reg = Registry::from_entries(vec![Entry { name: "math".to_string(), handler: HandlerId::Calculate }]).expect("unique");
    let mut l = DispatchLoop::new(DEFAULT_DISPATCH_LIMIT);
    l.receive(reply(&[CALC, "<function=math{\"a\": 1}>"]));
    assert!(matches!(l.next_step(&reg), Step::HandlerNotFound { .. }));
    match l.next_step(&reg) {
        Step::Dispatch(c) => assert_eq!(c.name, "math"),
        _ => panic!("expected a dispatch"),
    }
}

fn drain(l: &mut DispatchLoop, reg: &Registry, replies: &mut Vec<ChatResponse>, out: &mut Vec<String>, sent: &mut Vec<String>) {
    loop {
        match l.next_step(reg) {
            Step::Finished => return,
            Step::Answer(t) => out.push(t),
            Step::Dispatch(c) => {
                let req = follow_up_request("m", format!("result for {}", c.params_text));
                assert_eq!(req.messages.len(), 1);
                assert_eq!(req.messages[0].role, Role::User);
                sent.push(req.messages[0].content.clone());
                out.push(format!("call {}", c.params_text));
                l.receive(replies.remove(0));
            }
            _ => out.push("diagnostic".to_string()),
        }
    }
}

#[test]
fn continuation_chain_of_three_links() {
    let reg = Registry::standard();
    let mut l = DispatchLoop::new(DEFAULT_DISPATCH_LIMIT);
    l.receive(reply(&["<function=calculate{\"a\": 1, \"b\": 2, \"operation\": \"+\"}>"]));
    let mut replies = vec![
        reply(&["<function=calculate{\"a\": 3, \"b\": 4, \"operation\": \"*\"}>"]),
        reply(&["The total is 12."]),
    ];
    let (mut out, mut sent) = (Vec::new(), Vec::new());
    drain(&mut l, &reg, &mut replies, &mut out, &mut sent);
    assert!(replies.is_empty());
    assert_eq!(sent.len(), 2);
    assert_eq!(l.dispatched(), 2);
    assert_eq!(out.last().map(|s| s.as_str()), Some("The total is 12."));
}

#[test]
fn first_choice_chain_finishes_before_second_choice() {
    let reg = Registry::standard();
    let mut l = DispatchLoop::new(DEFAULT_DISPATCH_LIMIT);
    l.receive(reply(&[CALC, "<function=calculate{\"a\": 5, \"b\": 0, \"operation\": \"/\"}>"]));
    let mut replies = vec![
        reply(&["<function=calculate{\"a\": 9, \"b\": 1, \"operation\": \"-\"}>"]),
        reply(&["first done"]),
        reply(&["second done"]),
    ];
    let (mut out, mut sent) = (Vec::new(), Vec::new());
    drain(&mut l, &reg, &mut replies, &mut out, &mut sent);
    assert_eq!(
        out,
        vec![
            "call {\"a\": 6, \"b\": 3, \"operation\": \"+\"}",
            "call {\"a\": 9, \"b\": 1, \"operation\": \"-\"}",
            "first done",
            "call {\"a\": 5, \"b\": 0, \"operation\": \"/\"}",
            "second done",
        ]
    );
    assert_eq!(sent.len(), 3);
}
