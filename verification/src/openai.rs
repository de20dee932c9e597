//! Chat-completion request building for the OpenAI-style API, and the shape
//! of the records its stream delivers.

use vstd::prelude::*;

verus! {

use vstd::string::StringExecFns;
use crate::llm::{Message, Role};

/// Model identifiers the client ships with.
pub struct Models;

#[allow(non_upper_case_globals)]
impl Models {
    pub const GPT_4_1_Mini: &'static str = "gpt-4.1-mini-2025-04-14";

    pub const GPT_O_4_Mini: &'static str = "o4-mini-2025-04-16";
}

/// Provider-specific request context: which model to ask for and the key
/// that authorizes the call.
pub struct ApiContext {
    pub model: String,
    pub key: String,
}

impl ApiContext {
    pub fn new(model: String, key: String) -> (r: Self)
        ensures
            r.model@ == model@,
            r.key@ == key@,
    {
        Self { model, key }
    }
}

/// A request descriptor: everything the transport needs in order to send it.
pub struct LLMRequest {
    pub url: String,
    pub headers: Vec<(String, String)>,
    pub body: String,
}

/// The JSON string literal that encodes `s`: quoted and escaped.
pub uninterp spec fn json_str_of(s: Seq<char>) -> Seq<char>;

/// Relies on serde_json::to_string for a string slice: the quoted, escaped
/// JSON form of the characters. Serializing a string cannot fail, and the
/// result depends on the characters alone.
#[verifier::external_body]
fn json_string_escape(s: &str) -> (r: String)
    ensures
        r@ == json_str_of(s@),
{
    serde_json::to_string(s).unwrap_or_default()
}

/// The wire name of a role.
pub open spec fn role_name(r: Role) -> Seq<char> {
    match r {
        Role::Assistant => "assistant"@,
        Role::User => "user"@,
        Role::Developer => "developer"@,
    }
}

fn role_str(r: Role) -> (s: &'static str)
    ensures
        s@ == role_name(r),
{
    match r {
        Role::Assistant => "assistant",
        Role::User => "user",
        Role::Developer => "developer",
    }
}

/// JSON encoding of one message object.
pub open spec fn spec_message_json(role: Role, content: Seq<char>) -> Seq<char> {
    "{\"role\":\""@ + role_name(role) + "\",\"content\":"@ + json_str_of(content) + "}"@
}

/// JSON encoding of the message list's elements, comma separated.
pub open spec fn spec_messages_inner(ms: Seq<(Role, Seq<char>)>) -> Seq<char>
    decreases ms.len(),
{
    if ms.len() == 0 {
        Seq::empty()
    } else if ms.len() == 1 {
        spec_message_json(ms[0].0, ms[0].1)
    } else {
        spec_messages_inner(ms.drop_last()) + ","@ + spec_message_json(
            ms.last().0,
            ms.last().1,
        )
    }
}

/// JSON encoding of the whole request body, fields in wire order.
pub open spec fn spec_request_body(model: Seq<char>, ms: Seq<(Role, Seq<char>)>) -> Seq<char> {
    "{\"model\":"@ + json_str_of(model) + ",\"messages\":["@ + spec_messages_inner(ms)
        + "],\"max_completion_tokens\":4096,\"n\":1,\"stream\":true}"@
}

/// The view of a message list that the body encoding is stated over.
pub open spec fn messages_view(ms: Seq<Message>) -> Seq<(Role, Seq<char>)> {
    ms.map_values(|m: Message| (m.role, m.content@))
}

impl ApiContext {
    /// Builds the streaming chat-completion request for a conversation:
    /// the fixed endpoint, the two transport headers, and the JSON body.
    pub fn build_request(&self, messages: Vec<Message>) -> (r: LLMRequest)
        ensures
            r.url@ == "https://api.openai.com/v1/chat/completions"@,
            r.headers@.len() == 2,
            r.headers@[0].0@ == "Content-Type"@,
            r.headers@[0].1@ == "application/json"@,
            r.headers@[1].0@ == "Authorization"@,
            r.headers@[1].1@ == "Bearer "@ + self.key@,
            r.body@ == spec_request_body(self.model@, messages_view(messages@)),
    {
        let mut body = String::from_str("{\"model\":");
        body.append(json_string_escape(self.model.as_str()).as_str());
        body.append(",\"messages\":[");
        let ghost ms = messages_view(messages@);
        let n = messages.len();
        let mut i: usize = 0;
        let mut inner = String::new();
        while i < n
            invariant
                i <= n == messages@.len(),
                ms == messages_view(messages@),
                inner@ == spec_messages_inner(ms.take(i as int)),
            decreases n - i,
        {
            if i > 0 {
                inner.append(",");
            }
            inner.append("{\"role\":\"");
            inner.append(role_str(messages[i].role));
            inner.append("\",\"content\":");
            inner.append(json_string_escape(messages[i].content.as_str()).as_str());
            inner.append("}");
            proof {
                let t = ms.take(i as int + 1);
                assert(t.drop_last() =~= ms.take(i as int));
                assert(t.last() == (messages@[i as int].role, messages@[i as int].content@));
                if i == 0 {
                    assert(inner@ =~= spec_message_json(t[0].0, t[0].1));
                } else {
                    assert(inner@ =~= spec_messages_inner(t.drop_last()) + ","@
                        + spec_message_json(t.last().0, t.last().1));
                }
            }
            i = i + 1;
        }
        proof {
            assert(ms.take(n as int) =~= ms);
        }
        body.append(inner.as_str());
        body.append("],\"max_completion_tokens\":4096,\"n\":1,\"stream\":true}");
        let mut auth = String::from_str("Bearer ");
        auth.append(self.key.as_str());
        let mut headers: Vec<(String, String)> = Vec::new();
        headers.push((String::from_str("Content-Type"), String::from_str("application/json")));
        headers.push((String::from_str("Authorization"), auth));
        let r = LLMRequest { url: String::from_str("https://api.openai.com/v1/chat/completions"), headers, body };
        proof {
            assert(r.body@ =~= spec_request_body(self.model@, ms));
        }
        r
    }
}

/// A cited source attached to a streamed message.
pub struct UrlCitation {
    pub end_index: usize,
    pub start_index: usize,
    pub title: String,
    pub url: String,
}

/// An annotation attached to a streamed message.
pub struct Annotation {
    pub annot_type: String,
    pub url_citation: UrlCitation,
}

/// The message object of one streamed record, as far as the client reads it.
pub struct MessageRx {
    pub role: Option<Role>,
    pub content: Option<String>,
    pub refusal: Option<String>,
    pub annotations: Option<Vec<Annotation>>,
}

impl MessageRx {
    /// Whether the provider answered with a refusal instead of content.
    pub fn is_refusal(&self) -> (r: bool)
        ensures
            r == (self.refusal is Some),
    {
        self.refusal.is_some()
    }

    /// The refusal when there is one, else the content, else nothing.
    pub fn content_or_refusal(&self) -> (r: Option<String>)
        ensures
            match (r, content_or_refusal_of(
                match self.content {
                    Option::Some(ref c) => Option::Some(c@),
                    Option::None => Option::None,
                },
                match self.refusal {
                    Option::Some(ref c) => Option::Some(c@),
                    Option::None => Option::None,
                },
            )) {
                (Option::Some(s), Option::Some(p)) => s@ == p,
                (Option::None, Option::None) => true,
                _ => false,
            },
    {
        if let Some(r) = &self.refusal {
            Some(r.clone())
        } else if let Some(c) = &self.content {
            Some(c.clone())
        } else {
            None
        }
    }
}

/// The refusal when there is one, else the content, else nothing.
pub open spec fn content_or_refusal_of(
    content: Option<Seq<char>>,
    refusal: Option<Seq<char>>,
) -> Option<Seq<char>> {
    if refusal is Some {
        refusal
    } else {
        content
    }
}

/// The content and refusal texts carried by one complete streamed record,
/// or nothing when the record is not a well-formed record of the stream.
pub uninterp spec fn record_fields(record: Seq<u8>) -> Option<(Option<Seq<char>>, Option<Seq<char>>)>;

/// Relies on serde_json: parsing one streamed chat-completion record and
/// reading `choices[0]`'s `delta` (or `message`) object. The result depends
/// on the record's bytes alone; the roles and annotations of the stream are
/// not consumed by this client and are left unread.
#[verifier::external_body]
pub(crate) fn parse_record(record: &Vec<u8>) -> (r: Option<MessageRx>)
    ensures
        match (r, record_fields(record@)) {
            (Option::Some(m), Option::Some(f)) => {
                &&& m.role is None
                &&& m.annotations is None
                &&& match (m.content, f.0) {
                    (Option::Some(c), Option::Some(fc)) => c@ == fc,
                    (Option::None, Option::None) => true,
                    _ => false,
                }
                &&& match (m.refusal, f.1) {
                    (Option::Some(c), Option::Some(fc)) => c@ == fc,
                    (Option::None, Option::None) => true,
                    _ => false,
                }
            },
            (Option::None, Option::None) => true,
            _ => false,
        },
{
    let s = core::str::from_utf8(record.as_slice()).ok()?;
    let v: serde_json::Value = serde_json::from_str(s).ok()?;
    let choice = v.get("choices")?.get(0)?;
    let m = choice.get("delta").or_else(|| choice.get("message"))?;
    let content = m.get("content").and_then(|c| c.as_str()).map(|c| c.to_owned());
    let refusal = m.get("refusal").and_then(|c| c.as_str()).map(|c| c.to_owned());
    Some(MessageRx { role: None, content, refusal, annotations: None })
}

/// The piece of assistant text one complete record contributes: its refusal
/// when there is one, else its content.
pub open spec fn spec_piece_of(record: Seq<u8>) -> Option<Seq<char>> {
    match record_fields(record) {
        Option::None => Option::None,
        Option::Some(f) => content_or_refusal_of(f.0, f.1),
    }
}

} // verus!
