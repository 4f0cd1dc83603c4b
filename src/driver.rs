use vstd::prelude::*;
use crate::message::{ChatRequest, Message, ParamSpec, Role, ToolDeclaration};
use crate::registry::{HandlerId, Registry};

verus! {

/// The instruction that opens every turn: the marker grammar and the
/// operation symbols the model may use.
pub open spec fn system_prompt_text() -> Seq<char> {
    "You are a helpful assistant with access to a calculator. When users want to perform arithmetic operations, use the calculate function by responding with: <function=calculate{\"a\": number1, \"b\": number2, \"operation\": \"op\"}> where op can be +, -, *, or /. After receiving results, provide a friendly response."@
}

/// The names of a declaration's parameters, in order.
pub open spec fn param_names(d: ToolDeclaration) -> Seq<Seq<char>> {
    d.params@.map_values(|p: ParamSpec| p.name@)
}

/// The JSON types of a declaration's parameters, in order.
pub open spec fn param_kinds(d: ToolDeclaration) -> Seq<Seq<char>> {
    d.params@.map_values(|p: ParamSpec| p.kind@)
}

/// The descriptions of a declaration's parameters, in order.
pub open spec fn param_descriptions(d: ToolDeclaration) -> Seq<Seq<char>> {
    d.params@.map_values(|p: ParamSpec| p.description@)
}

/// The values a parameter may take.
pub open spec fn allowed_values(p: ParamSpec) -> Seq<Seq<char>> {
    p.allowed@.map_values(|s: String| s@)
}

/// `d` declares the calculator under `name`: numbers `a` and `b` and an
/// `operation` among `+ - * /`, all three required.
pub open spec fn is_calculator_declaration(d: ToolDeclaration, name: Seq<char>) -> bool {
    &&& d.name@ == name
    &&& d.description@ == "Calculator tool that performs basic arithmetic operations"@
    &&& param_names(d) == seq!["a"@, "b"@, "operation"@]
    &&& param_kinds(d) == seq!["number"@, "number"@, "string"@]
    &&& param_descriptions(d) == seq![
        "First number"@,
        "Second number"@,
        "Operation to perform (+, -, *, /)"@,
    ]
    &&& allowed_values(d.params@[0]) == Seq::<Seq<char>>::empty()
    &&& allowed_values(d.params@[1]) == Seq::<Seq<char>>::empty()
    &&& allowed_values(d.params@[2]) == seq!["+"@, "-"@, "*"@, "/"@]
    &&& required_names(d) == seq!["a"@, "b"@, "operation"@]
}

/// `d` declares `handler` under `name`.
pub open spec fn is_declaration_of(d: ToolDeclaration, handler: HandlerId, name: Seq<char>) -> bool {
    match handler {
        HandlerId::Calculate => is_calculator_declaration(d, name),
    }
}

/// The names of a declaration's required parameters, in order.
pub open spec fn required_names(d: ToolDeclaration) -> Seq<Seq<char>> {
    d.required@.map_values(|s: String| s@)
}

fn text(s: &str) -> (r: String)
    ensures
        r@ == s@,
{
    String::from_str(s)
}

fn param(name: &str, kind: &str, description: &str, allowed: Vec<String>) -> (r: ParamSpec)
    ensures
        r.name@ == name@,
        r.kind@ == kind@,
        r.description@ == description@,
        r.allowed == allowed,
{
    ParamSpec { name: text(name), kind: text(kind), description: text(description), allowed }
}

/// The declaration of the calculator under `name`: numbers `a` and `b` and an
/// `operation` symbol, all three required.
pub fn calculator_declaration(name: &str) -> (r: ToolDeclaration)
    ensures
        is_calculator_declaration(r, name@),
{
    let ops = vec![text("+"), text("-"), text("*"), text("/")];
    let params = vec![
        param("a", "number", "First number", Vec::new()),
        param("b", "number", "Second number", Vec::new()),
        param("operation", "string", "Operation to perform (+, -, *, /)", ops),
    ];
    let required = vec![text("a"), text("b"), text("operation")];
    let r = ToolDeclaration {
        name: text(name),
        description: text("Calculator tool that performs basic arithmetic operations"),
        params,
        required,
    };
    assert(param_names(r) =~= seq!["a"@, "b"@, "operation"@]);
    assert(param_kinds(r) =~= seq!["number"@, "number"@, "string"@]);
    assert(param_descriptions(r) =~= seq![
        "First number"@,
        "Second number"@,
        "Operation to perform (+, -, *, /)"@,
    ]);
    assert(allowed_values(r.params@[0]) =~= Seq::<Seq<char>>::empty());
    assert(allowed_values(r.params@[1]) =~= Seq::<Seq<char>>::empty());
    assert(allowed_values(r.params@[2]) =~= seq!["+"@, "-"@, "*"@, "/"@]);
    assert(required_names(r) =~= seq!["a"@, "b"@, "operation"@]);
    r
}

/// The declaration of `handler`, advertised under `name`.
pub fn declaration_for(handler: HandlerId, name: &str) -> (r: ToolDeclaration)
    ensures
        is_declaration_of(r, handler, name@),
{
    match handler {
        HandlerId::Calculate => calculator_declaration(name),
    }
}

/// One declaration per registration, in order, each under its registered name.
pub fn declarations(reg: &Registry) -> (r: Vec<ToolDeclaration>)
    ensures
        r@.len() == reg.entries_view().len(),
        forall|i: int|
            0 <= i < r@.len() ==> is_declaration_of(
                #[trigger] r@[i],
                reg.entries_view()[i].1,
                reg.entries_view()[i].0,
            ),
{
    let mut r: Vec<ToolDeclaration> = Vec::new();
    let mut i: usize = 0;
    while i < reg.len()
        invariant
            i <= reg.entries_view().len(),
            r@.len() == i,
            forall|j: int|
                0 <= j < i ==> is_declaration_of(
                    #[trigger] r@[j],
                    reg.entries_view()[j].1,
                    reg.entries_view()[j].0,
                ),
        decreases reg.entries_view().len() - i,
    {
        let (name, handler) = reg.entry(i);
        r.push(declaration_for(handler, name.as_str()));
        i = i + 1;
    }
    r
}

/// The first request of a turn: the system prompt, then the user's input, with
/// every registered function declared.
pub fn initial_request(model: &str, reg: &Registry, user_input: &str) -> (r: ChatRequest)
    ensures
        r.model@ == model@,
        r.messages@.len() == 2,
        r.messages@[0].role == Role::System,
        r.messages@[0].content@ == system_prompt_text(),
        r.messages@[1].role == Role::User,
        r.messages@[1].content@ == user_input@,
        r.tools@.len() == reg.entries_view().len(),
        forall|i: int|
            0 <= i < r.tools@.len() ==> is_declaration_of(
                #[trigger] r.tools@[i],
                reg.entries_view()[i].1,
                reg.entries_view()[i].0,
            ),
        r.tool_choice@ == "auto"@,
{
    let prompt = text("You are a helpful assistant with access to a calculator. When users want to perform arithmetic operations, use the calculate function by responding with: <function=calculate{\"a\": number1, \"b\": number2, \"operation\": \"op\"}> where op can be +, -, *, or /. After receiving results, provide a friendly response.");
    ChatRequest {
        model: text(model),
        messages: vec![
            Message { role: Role::System, content: prompt },
            Message { role: Role::User, content: text(user_input) },
        ],
        tools: declarations(reg),
        tool_choice: text("auto"),
    }
}

} // verus!
