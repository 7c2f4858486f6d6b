//! The conversation data model: roles, messages, requests sent to the
//! completion endpoint, and the replies that come back.

use vstd::prelude::*;

verus! {

/// Who a message speaks for.
#[derive(Debug, Clone, Copy, PartialEq, Eq, Structural)]
pub enum Role {
    System,
    User,
    Assistant,
}

/// One chat message: a role and its text.
#[derive(Debug, Clone, PartialEq, Eq)]
pub struct Message {
    pub role: Role,
    pub content: String,
}

/// Mathematical value of a [`Message`].
pub struct MessageV {
    pub role: Role,
    pub content: Seq<char>,
}

impl View for Message {
    type V = MessageV;

    open spec fn view(&self) -> MessageV {
        MessageV { role: self.role, content: self.content@ }
    }
}

impl Message {
    /// A message spoken by the system.
    pub fn system(content: String) -> (m: Message)
        ensures
            m.role is System,
            m.content@ == content@,
    {
        Message { role: Role::System, content }
    }

    /// A message spoken by the user.
    pub fn user(content: String) -> (m: Message)
        ensures
            m.role is User,
            m.content@ == content@,
    {
        Message { role: Role::User, content }
    }

    /// A message spoken by the assistant.
    pub fn assistant(content: String) -> (m: Message)
        ensures
            m.role is Assistant,
            m.content@ == content@,
    {
        Message { role: Role::Assistant, content }
    }
}

/// One request to the completion endpoint: a model wire name and the ordered
/// messages of the conversation so far.
#[derive(Debug, Clone, PartialEq, Eq)]
pub struct Request {
    pub model: String,
    pub messages: Vec<Message>,
}

/// Mathematical value of a [`Request`].
pub struct RequestV {
    pub model: Seq<char>,
    pub messages: Seq<MessageV>,
}

impl View for Request {
    type V = RequestV;

    open spec fn view(&self) -> RequestV {
        RequestV {
            model: self.model@,
            messages: self.messages@.map_values(|m: Message| m@),
        }
    }
}

impl Request {
    /// Bundles a model wire name with a message list.
    pub fn new(model: String, messages: Vec<Message>) -> (r: Request)
        ensures
            r.model@ == model@,
            r.messages@ == messages@,
    {
        Request { model, messages }
    }
}

/// One candidate completion of a reply.
#[derive(Debug, Clone, PartialEq, Eq)]
pub struct Choice {
    pub message: Message,
    pub finish_reason: String,
    pub index: i64,
}

/// Mathematical value of a [`Choice`].
pub struct ChoiceV {
    pub message: MessageV,
    pub finish_reason: Seq<char>,
    pub index: i64,
}

impl View for Choice {
    type V = ChoiceV;

    open spec fn view(&self) -> ChoiceV {
        ChoiceV {
            message: self.message@,
            finish_reason: self.finish_reason@,
            index: self.index,
        }
    }
}

/// Token counts the endpoint reports for one exchange.
#[derive(Debug, Clone, Copy, PartialEq, Eq, Structural)]
pub struct Usage {
    pub prompt_tokens: usize,
    pub completion_tokens: usize,
    pub total_tokens: usize,
}

/// A successful reply of the completion endpoint.
#[derive(Debug, Clone, PartialEq, Eq)]
pub struct Response {
    pub id: String,
    pub object: String,
    pub created: i64,
    pub model: String,
    pub choices: Vec<Choice>,
    pub usage: Option<Usage>,
}

/// Mathematical value of a [`Response`].
pub struct ResponseV {
    pub id: Seq<char>,
    pub object: Seq<char>,
    pub created: i64,
    pub model: Seq<char>,
    pub choices: Seq<ChoiceV>,
    pub usage: Option<Usage>,
}

impl View for Response {
    type V = ResponseV;

    open spec fn view(&self) -> ResponseV {
        ResponseV {
            id: self.id@,
            object: self.object@,
            created: self.created,
            model: self.model@,
            choices: self.choices@.map_values(|c: Choice| c@),
            usage: self.usage,
        }
    }
}

/// The error envelope the endpoint sends in place of a success body.
#[derive(Debug, Clone, PartialEq, Eq)]
pub struct Error {
    pub message: String,
    pub type_field: String,
    pub param: Option<String>,
    pub code: Option<String>,
}

/// Mathematical value of an [`Error`].
pub struct ErrorV {
    pub message: Seq<char>,
    pub type_field: Seq<char>,
    pub param: Option<Seq<char>>,
    pub code: Option<Seq<char>>,
}

impl View for Error {
    type V = ErrorV;

    open spec fn view(&self) -> ErrorV {
        ErrorV {
            message: self.message@,
            type_field: self.type_field@,
            param: match self.param {
                Some(ref p) => Some(p@),
                None => None,
            },
            code: match self.code {
                Some(ref c) => Some(c@),
                None => None,
            },
        }
    }
}

/// The root object wrapped around an [`Error`] on the wire.
#[derive(Debug, Clone, PartialEq, Eq)]
pub struct ErrorRoot {
    pub error: Error,
}

impl View for ErrorRoot {
    type V = ErrorV;

    open spec fn view(&self) -> ErrorV {
        self.error@
    }
}

/// The Debug form of a text: quoted and escaped exactly as Rust writes a
/// string under `{:?}`, a function of the characters alone.
pub uninterp spec fn string_debug_of(s: Seq<char>) -> Seq<char>;

/// Relies on the Debug impl of str, reached through String: `{:?}` writes
/// the quoted, escaped form of the text and nothing else.
#[verifier::external_body]
fn debug_str(s: &String) -> (r: String)
    ensures
        r@ == string_debug_of(s@),
{
    format!("{:?}", s)
}

/// What an [`Error`] renders to: the type bare, then the code and the
/// message in their Debug forms — `type (Some("code")): "message"`, with
/// `None` for a missing code.
pub open spec fn error_render_spec(e: ErrorV) -> Seq<char> {
    e.type_field + " ("@ + (match e.code {
        Some(c) => "Some("@ + string_debug_of(c) + ")"@,
        None => "None"@,
    }) + "): "@ + string_debug_of(e.message)
}

impl Error {
    /// One readable line for the envelope, shaped as the Debug-form line
    /// `type (code): message`.
    pub fn render(&self) -> (r: String)
        ensures
            r@ == error_render_spec(self@),
    {
        let mut out = String::from_str("");
        out.append(self.type_field.as_str());
        out.append(" (");
        match &self.code {
            Some(c) => {
                out.append("Some(");
                let d = debug_str(c);
                out.append(d.as_str());
                out.append(")");
            },
            None => {
                out.append("None");
            },
        }
        out.append("): ");
        let dm = debug_str(&self.message);
        out.append(dm.as_str());
        proof {
            reveal_strlit("");
            assert(out@ =~= error_render_spec(self@));
        }
        out
    }
}

/// The fixed instruction sent as the system message of every request.
pub open spec fn system_msg_spec() -> Seq<char> {
    "You are an AI that receives the output of a command's --help option and generates a markdown table using GitHub Flavored Markdown (GFM) listing all available arguments, including the short and long arguments, description, and default value (if applicable), based on the following format: short, long, description, default. The markdown table should be the only thing in your response. Do NOT return any introductory text or text after the table."@
}

/// The fixed system instruction as an owned string.
pub fn system_msg() -> (s: String)
    ensures
        s@ == system_msg_spec(),
{
    String::from_str(
        "You are an AI that receives the output of a command's --help option and generates a markdown table using GitHub Flavored Markdown (GFM) listing all available arguments, including the short and long arguments, description, and default value (if applicable), based on the following format: short, long, description, default. The markdown table should be the only thing in your response. Do NOT return any introductory text or text after the table.",
    )
}

/// The conversation sent for one captured help text: the fixed system
/// instruction first, then the captured text verbatim, nothing else.
pub fn build_messages(output: String) -> (msgs: Vec<Message>)
    ensures
        msgs@.len() == 2,
        msgs@[0].role is System,
        msgs@[0].content@ == system_msg_spec(),
        msgs@[1].role is User,
        msgs@[1].content@ == output@,
{
    let mut msgs: Vec<Message> = Vec::new();
    msgs.push(Message::system(system_msg()));
    msgs.push(Message::user(output));
    msgs
}

/// The text of the first returned choice; `None` exactly when the reply holds
/// no choice at all.
pub fn first_choice_content(r: &Response) -> (c: Option<&String>)
    ensures
        c is Some <==> r.choices@.len() > 0,
        c is Some ==> c->0@ == r.choices@[0].message.content@,
{
    if r.choices.len() > 0 {
        Some(&r.choices[0].message.content)
    } else {
        None
    }
}

} // verus!
