use fncall_agent::driver::{calculator_declaration, declaration_for, declarations, initial_request};
use fncall_agent::message::Role;
use fncall_agent::registry::{Entry, HandlerId, Registry};

#[test]
fn standard_registry_has_calculate() {
    let reg = Registry::standard();
    assert_eq!(reg.lookup(&"calculate".to_string()), Some(HandlerId::Calculate));
    assert_eq!(reg.lookup(&"Calculate".to_string()), None);
    assert_eq!(reg.lookup(&"".to_string()), None);
    assert_eq!(reg.len(), 1);
}

#[test]
fn duplicate_names_are_refused() {
    let e = |n: &str| Entry { name: n.to_string(), handler: HandlerId::Calculate };
    assert!(Registry::from_entries(vec![e("a"), e("b"), e("a")]).is_none());
    let reg = Registry::from_entries(vec![e("a"), e("b")]).expect("unique");
    assert_eq!(reg.lookup(&"b".to_string()), Some(HandlerId::Calculate));
    let empty = Registry::from_entries(Vec::new()).expect("empty");
    assert_eq!(empty.lookup(&"calculate".to_string()), None);
}

#[test]
fn initial_request_has_prompt_input_and_tools() {
    let reg = Registry::standard();
    let req = initial_request("m", &reg, "what is 6 + 3?");
    assert_eq!(req.model, "m");
    assert_eq!(req.messages.len(), 2);
    assert_eq!(req.messages[0].role, Role::System);
    assert!(req.messages[0].content.contains("<function=calculate{"));
    assert_eq!(req.messages[1].role, Role::User);
    assert_eq!(req.messages[1].content, "what is 6 + 3?");
    assert_eq!(req.tools.len(), 1);
    assert_eq!(req.tools[0].name, "calculate");
    assert_eq!(req.tool_choice, "auto");
}

#[test]
fn calculator_declaration_requires_all_parameters() {
    let d = calculator_declaration("calculate");
    let names: Vec<&str> = d.params.iter().map(|p| p.name.as_str()).collect();
    assert_eq!(names, vec!["a", "b", "operation"]);
    assert_eq!(d.required, vec!["a", "b", "operation"]);
    assert_eq!(d.params[2].allowed, vec!["+", "-", "*", "/"]);
    assert_eq!(d.params[0].kind, "number");
}

#[test]
fn declarations_follow_registrations() {
    let reg = Registry::from_entries(vec![
        Entry { name: "x".to_string(), handler: HandlerId::Calculate },
        Entry { name: "y".to_string(), handler: HandlerId::Calculate },
    ])
    .expect("unique");
    let ds = declarations(&reg);
    assert_eq!(ds.len(), 2);
    assert_eq!(ds[0].name, "x");
    assert_eq!(ds[1].name, "y");
}

#[test]
fn declaration_for_calculator_carries_the_schema() {
    let d = declaration_for(HandlerId::Calculate, "calc");
    assert_eq!(d.name, "calc");
    assert_eq!(d.description, "Calculator tool that performs basic arithmetic operations");
    let kinds: Vec<&str> = d.params.iter().map(|p| p.kind.as_str()).collect();
    assert_eq!(kinds, vec!["number", "number", "string"]);
    assert_eq!(d.params[0].description, "First number");
    assert!(d.params[0].allowed.is_empty());
    assert_eq!(d.params[2].allowed, vec!["+", "-", "*", "/"]);
    assert_eq!(d.required, vec!["a", "b", "operation"]);
    let req = initial_request("m", &Registry::standard(), "hi");
    assert_eq!(req.tools[0].params.len(), 3);
    assert_eq!(req.tools[0].required, vec!["a", "b", "operation"]);
}
