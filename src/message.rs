use vstd::prelude::*;

verus! {

/// Who a message comes from.
#[derive(PartialEq, Eq, Structural, Clone, Copy, Debug)]
pub enum Role {
    System,
    User,
    Assistant,
}

/// One message of a conversation.
pub struct Message {
    pub role: Role,
    pub content: String,
}

/// One named parameter of a tool's schema.
pub struct ParamSpec {
    pub name: String,
    /// The JSON type of the parameter (`number`, `string`, ...).
    pub kind: String,
    pub description: String,
    /// The values the parameter may take; empty when any value of its type is allowed.
    pub allowed: Vec<String>,
}

/// A function advertised to the endpoint, with its parameter schema.
pub struct ToolDeclaration {
    pub name: String,
    pub description: String,
    pub params: Vec<ParamSpec>,
    /// The names of the parameters that must be present.
    pub required: Vec<String>,
}

/// One outbound request to the completion endpoint.
pub struct ChatRequest {
    pub model: String,
    pub messages: Vec<Message>,
    pub tools: Vec<ToolDeclaration>,
    pub tool_choice: String,
}

/// One candidate reply: a structured message, raw text, or both.
pub struct Choice {
    pub message: Option<Message>,
    pub text: Option<String>,
}

/// A reply of the completion endpoint.
pub struct ChatResponse {
    pub choices: Vec<Choice>,
}

/// The text a choice carries: the message's content when there is a message,
/// else the raw text.
pub open spec fn choice_text(c: Choice) -> Option<Seq<char>> {
    match c.message {
        Some(m) => Some(m.content@),
        None => match c.text {
            Some(t) => Some(t@),
            None => None,
        },
    }
}

impl Choice {
    /// The text of this choice, preferring the message over the raw text.
    pub fn content(self) -> (r: Option<String>)
        ensures
            match r {
                Some(s) => choice_text(self) == Some(s@),
                None => choice_text(self) is None,
            },
    {
        match self.message {
            Some(m) => Some(m.content),
            None => self.text,
        }
    }
}

/// The request that carries a handler's result back to the endpoint: one user
/// message holding the result, and no tools.
pub fn follow_up_request(model: &str, result: String) -> (r: ChatRequest)
    ensures
        r.model@ == model@,
        r.messages@.len() == 1,
        r.messages@[0].role == Role::User,
        r.messages@[0].content == result,
        r.tools@.len() == 0,
        r.tool_choice@ == "auto"@,
{
    ChatRequest {
        model: String::from_str(model),
        messages: vec![Message { role: Role::User, content: result }],
        tools: Vec::new(),
        tool_choice: String::from_str("auto"),
    }
}

} // verus!
