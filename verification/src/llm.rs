//! Conversation data model: roles, messages, and the provider context a
//! request is built from.

use vstd::prelude::*;

verus! {

use crate::openai::ApiContext;

/// Default generation parameters sent with every request.
pub struct Defaults;

impl Defaults {
    pub const MAX_COMPLETION_TOKENS: u32 = 4096;

    pub const NUM_GENS: u32 = 1;
}

/// Generation providers the client knows how to talk to.
#[derive(PartialEq, Eq, Structural, Hash, Debug, Clone, Copy)]
pub enum Provider {
    OpenAi,
}

/// One decoded piece of assistant text delivered as a streaming update.
pub struct LLMResponse(pub String);

/// Who authored an entry of the conversation.
#[derive(PartialEq, Eq, Structural, Debug, Clone, Copy)]
pub enum Role {
    Assistant,
    User,
    Developer,
}

/// One conversation entry as the provider consumes it.
pub struct Message {
    pub role: Role,
    pub content: String,
}

impl Message {
    /// A conversation of a single user message, for an initial request.
    pub fn new_user_request(content: String) -> (r: Vec<Message>)
        ensures
            r@.len() == 1,
            r@[0].role == Role::User,
            r@[0].content@ == content@,
    {
        let mut v: Vec<Message> = Vec::new();
        v.push(Message { role: Role::User, content });
        v
    }

    /// The conversation history as provider messages, in order.
    pub fn from_history(content: &Vec<(Role, String)>) -> (r: Vec<Message>)
        ensures
            r@.len() == content@.len(),
            forall|i: int|
                0 <= i < r@.len() ==> r@[i].role == content@[i].0 && r@[i].content@
                    == content@[i].1@,
    {
        let mut r: Vec<Message> = Vec::new();
        let n = content.len();
        let mut i: usize = 0;
        while i < n
            invariant
                i <= n == content@.len(),
                r@.len() == i,
                forall|j: int|
                    0 <= j < i ==> r@[j].role == content@[j].0 && r@[j].content@
                        == content@[j].1@,
            decreases n - i,
        {
            let role = content[i].0;
            let text = content[i].1.clone();
            r.push(Message { role, content: text });
            i = i + 1;
        }
        r
    }
}

/// A thin wrapper over provider-specific API contexts, resolved once at
/// startup to a closed set of known providers.
pub struct LLMContext {
    pub api: ApiContext,
}

impl LLMContext {
    pub fn new(provider: Provider, model: String, key: String) -> (r: Self)
        ensures
            r.api.model@ == model@,
            r.api.key@ == key@,
    {
        match provider {
            Provider::OpenAi => Self { api: ApiContext::new(model, key) },
        }
    }
}

} // verus!
