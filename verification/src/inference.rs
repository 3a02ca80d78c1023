use vstd::prelude::*;
use vstd::string::*;

verus! {

/// The most tokens that the service is asked to answer with, unless a request
/// says otherwise.
pub const DEFAULT_MAX_TOKENS: u32 = 1000;

/// How a classification call failed.
#[derive(Clone, Copy, Debug, PartialEq, Eq, Structural)]
pub enum ServiceErrorKind {
    /// The request could not be sent, or its answer could not be received.
    Transport,
    /// The service answered with a status outside the success range.
    Rejected,
    /// The answer held no completion.
    NoCompletion,
}

/// A failed classification call, with the text that describes the failure.
#[derive(Clone, Debug)]
pub struct ServiceError {
    pub kind: ServiceErrorKind,
    pub detail: String,
}

pub struct ServiceErrorView {
    pub kind: ServiceErrorKind,
    pub detail: Seq<char>,
}

impl View for ServiceError {
    type V = ServiceErrorView;

    open spec fn view(&self) -> ServiceErrorView {
        ServiceErrorView { kind: self.kind, detail: self.detail@ }
    }
}

impl ServiceErrorView {
    /// The diagnostic text of the failure. For a rejected request it is the
    /// body that the service sent, marked as an error of the service.
    pub open spec fn message(self) -> Seq<char> {
        match self.kind {
            ServiceErrorKind::Rejected => "API error: "@ + self.detail,
            _ => self.detail,
        }
    }
}

impl ServiceError {
    /// A failure of the transport, described by `detail`.
    pub fn transport(detail: String) -> (r: ServiceError)
        ensures
            r@ == (ServiceErrorView { kind: ServiceErrorKind::Transport, detail: detail@ }),
    {
        ServiceError { kind: ServiceErrorKind::Transport, detail }
    }

    /// The failure of a request that the service answered with a status
    /// outside the success range and the body `body`.
    pub fn rejected(body: String) -> (r: ServiceError)
        ensures
            r@ == (ServiceErrorView { kind: ServiceErrorKind::Rejected, detail: body@ }),
    {
        ServiceError { kind: ServiceErrorKind::Rejected, detail: body }
    }

    /// The failure of a request whose answer held no completion, described by
    /// `detail`.
    pub fn no_completion(detail: String) -> (r: ServiceError)
        ensures
            r@ == (ServiceErrorView { kind: ServiceErrorKind::NoCompletion, detail: detail@ }),
    {
        ServiceError { kind: ServiceErrorKind::NoCompletion, detail }
    }

    /// The diagnostic text of the failure.
    pub fn message(&self) -> (r: String)
        ensures
            r@ == self@.message(),
    {
        match self.kind {
            ServiceErrorKind::Rejected => String::from_str("API error: ").concat(
                self.detail.as_str(),
            ),
            _ => self.detail.clone(),
        }
    }
}

/// What a classification call came to: the model's answer as it stands, or
/// the failure.
pub open spec fn outcome_view(outcome: Result<String, ServiceError>) -> Result<
    Seq<char>,
    ServiceErrorView,
> {
    match outcome {
        Ok(text) => Ok(text@),
        Err(error) => Err(error@),
    }
}

/// One part of a message: a text, or a reference to an image.
#[derive(Clone, Debug)]
pub enum ContentPart {
    Text { text: String },
    ImageUrl { url: String, detail: Option<String> },
}

pub enum ContentPartView {
    Text { text: Seq<char> },
    ImageUrl { url: Seq<char>, detail: Option<Seq<char>> },
}

impl View for ContentPart {
    type V = ContentPartView;

    open spec fn view(&self) -> ContentPartView {
        match self {
            ContentPart::Text { text } => ContentPartView::Text { text: text@ },
            ContentPart::ImageUrl { url, detail } => ContentPartView::ImageUrl {
                url: url@,
                detail: match detail {
                    Some(d) => Some(d@),
                    None => None,
                },
            },
        }
    }
}

/// A message of a conversation: who speaks, and the parts of what is said.
#[derive(Clone, Debug)]
pub struct Message {
    pub role: String,
    pub content: Vec<ContentPart>,
}

pub struct MessageView {
    pub role: Seq<char>,
    pub content: Seq<ContentPartView>,
}

impl View for Message {
    type V = MessageView;

    open spec fn view(&self) -> MessageView {
        MessageView {
            role: self.role@,
            content: self.content@.map_values(|part: ContentPart| part@),
        }
    }
}

/// The body of one request to the chat completion service.
#[derive(Clone, Debug)]
pub struct ChatRequest {
    pub model: String,
    pub messages: Vec<Message>,
    pub max_tokens: u32,
}

pub struct ChatRequestView {
    pub model: Seq<char>,
    pub messages: Seq<MessageView>,
    pub max_tokens: u32,
}

impl View for ChatRequest {
    type V = ChatRequestView;

    open spec fn view(&self) -> ChatRequestView {
        ChatRequestView {
            model: self.model@,
            messages: self.messages@.map_values(|message: Message| message@),
            max_tokens: self.max_tokens,
        }
    }
}

/// The request that puts `prompt` and the image at `image_url` to `model`:
/// one message of the user, the text first and the image second, the choice of
/// the image's resolution left to the service.
pub open spec fn chat_request_spec(
    image_url: Seq<char>,
    prompt: Seq<char>,
    model: Seq<char>,
    max_tokens: u32,
) -> ChatRequestView {
    ChatRequestView {
        model,
        messages: seq![
            MessageView {
                role: "user"@,
                content: seq![
                    ContentPartView::Text { text: prompt },
                    ContentPartView::ImageUrl { url: image_url, detail: Some("auto"@) },
                ],
            },
        ],
        max_tokens,
    }
}

/// Builds the request that puts `prompt` and the image at `image_url` to
/// `model`, the answer held to `max_tokens` tokens.
pub fn chat_request_with_limit(
    image_url: String,
    prompt: String,
    model: String,
    max_tokens: u32,
) -> (r: ChatRequest)
    ensures
        r@ == chat_request_spec(image_url@, prompt@, model@, max_tokens),
{
    let mut content: Vec<ContentPart> = Vec::new();
    content.push(ContentPart::Text { text: prompt });
    content.push(
        ContentPart::ImageUrl { url: image_url, detail: Some(String::from_str("auto")) },
    );
    let message = Message { role: String::from_str("user"), content };
    assert(message@.content =~= chat_request_spec(
        image_url@,
        prompt@,
        model@,
        max_tokens,
    ).messages[0].content);
    let mut messages: Vec<Message> = Vec::new();
    messages.push(message);
    let request = ChatRequest { model, messages, max_tokens };
    assert(request@.messages =~= chat_request_spec(
        image_url@,
        prompt@,
        model@,
        max_tokens,
    ).messages);
    request
}

/// Builds the request that puts `prompt` and the image at `image_url` to
/// `model`, the answer held to `DEFAULT_MAX_TOKENS` tokens.
pub fn chat_request(image_url: String, prompt: String, model: String) -> (r: ChatRequest)
    ensures
        r@ == chat_request_spec(image_url@, prompt@, model@, DEFAULT_MAX_TOKENS),
{
    chat_request_with_limit(image_url, prompt, model, DEFAULT_MAX_TOKENS)
}

/// The address of the chat completion service.
pub fn endpoint() -> (r: &'static str)
    ensures
        r@ == "https://api.openai.com/v1/chat/completions"@,
{
    "https://api.openai.com/v1/chat/completions"
}

/// The value of the authorization header that presents `api_key`.
pub fn bearer(api_key: &str) -> (r: String)
    ensures
        r@ == "Bearer "@ + api_key@,
{
    String::from_str("Bearer ").concat(api_key)
}

/// The reference that embeds a JPEG image, given in base64, in a request.
pub fn image_data_url(image_base64: &str) -> (r: String)
    ensures
        r@ == "data:image/jpeg;base64,"@ + image_base64@,
{
    String::from_str("data:image/jpeg;base64,").concat(image_base64)
}

/// Whether an HTTP status reports success: the codes from 200 to 299.
pub fn is_success(status: u16) -> (r: bool)
    ensures
        r == (200 <= status < 300),
{
    200 <= status && status < 300
}

/// The answer that a list of completions stands for: the first of them.
/// An empty list is a failed call.
pub open spec fn first_completion_spec(choices: Seq<Seq<char>>) -> Result<
    Seq<char>,
    ServiceErrorView,
> {
    if choices.len() == 0 {
        Err(ServiceErrorView { kind: ServiceErrorKind::NoCompletion, detail: "No response"@ })
    } else {
        Ok(choices[0])
    }
}

/// Picks the model's answer out of the completions that the service sent.
pub fn first_completion(choices: &Vec<String>) -> (r: Result<String, ServiceError>)
    ensures
        outcome_view(r) == first_completion_spec(choices@.map_values(|c: String| c@)),
{
    if choices.len() == 0 {
        Err(ServiceError::no_completion(String::from_str("No response")))
    } else {
        Ok(choices[0].clone())
    }
}

} // verus!
