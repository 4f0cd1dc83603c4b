use fncall_agent::marker::find_marker;

#[test]
fn finds_calculator_marker() {
    let text = "Sure: <function=calculate{\"a\": 6, \"b\": 3, \"operation\": \"+\"}> done";
    let mk = find_marker(text).expect("marker");
    assert_eq!(mk.name, "calculate");
    assert_eq!(mk.params, "{\"a\": 6, \"b\": 3, \"operation\": \"+\"}");
}

#[test]
fn plain_text_has_no_marker() {
    assert!(find_marker("The answer is 9.").is_none());
    assert!(find_marker("").is_none());
}

#[test]
fn marker_round_trip_reserializes() {
    let mk = find_marker("x<function=my_fn2{\"k\": 1}>y").expect("marker");
    let again = format!("<function={}{}>", mk.name, mk.params);
    let mk2 = find_marker(&again).expect("marker again");
    assert_eq!(mk2.name, "my_fn2");
    assert_eq!(mk2.params, "{\"k\": 1}");
}

#[test]
fn nested_braces_are_not_a_marker() {
    assert!(find_marker("<function=f{\"a\": {\"b\": 1}}>").is_none());
}

#[test]
fn empty_or_bad_name_is_not_a_marker() {
    assert!(find_marker("<function={\"a\": 1}>").is_none());
    assert!(find_marker("<function=a-b{\"a\": 1}>").is_none());
    assert!(find_marker("<function=f{\"a\": 1}").is_none());
}

#[test]
fn leftmost_marker_wins() {
    let mk = find_marker("<function=bad{x} <function=first{}> <function=second{}>").expect("marker");
    assert_eq!(mk.name, "first");
    assert_eq!(mk.params, "{}");
}

#[test]
fn marker_with_non_ascii_text_around() {
    let mk = find_marker("héllo → <function=calc{\"x\": \"é\"}>").expect("marker");
    assert_eq!(mk.name, "calc");
    assert_eq!(mk.params, "{\"x\": \"é\"}");
}
