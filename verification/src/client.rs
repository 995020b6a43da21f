//! The client: which model to ask, the key to ask with, and the requests
//! that follow from them. Sending a request is the caller's part.

use vstd::prelude::*;
use vstd::string::*;
use crate::error::{DecodeError, RequestError, SessionError};
use crate::response::{spec_parse_response, Response};
use crate::worker::is_success;
use crate::request::{message_views, request_json, ChatCompletionRequest, Message, MessageView, RequestView};
use crate::tags::Model;

verus! {

/// Where requests are posted.
pub const API_URL: &'static str = "https://api.deepseek.com/chat/completions";

/// An HTTPS POST, ready to be sent.
#[derive(Clone, Debug, PartialEq, Eq)]
pub struct PostRequest {
    pub url: String,
    /// The value of the header `Content-Type`.
    pub content_type: String,
    /// The value of the header `Accept`.
    pub accept: String,
    /// The value of the header `Authorization`.
    pub authorization: String,
    pub body: String,
}

/// A POST as a value.
pub struct PostView {
    pub url: Seq<char>,
    pub content_type: Seq<char>,
    pub accept: Seq<char>,
    pub authorization: Seq<char>,
    pub body: Seq<char>,
}

impl View for PostRequest {
    type V = PostView;

    open spec fn view(&self) -> PostView {
        PostView {
            url: self.url@,
            content_type: self.content_type@,
            accept: self.accept@,
            authorization: self.authorization@,
            body: self.body@,
        }
    }
}

/// The POST that carries a dialog: to the endpoint, JSON both ways, the key
/// as a bearer token, and the request as the body.
pub open spec fn post_for(
    model: Model,
    api_key: Seq<char>,
    messages: Seq<MessageView>,
    stream: bool,
) -> PostView {
    PostView {
        url: API_URL@,
        content_type: "application/json"@,
        accept: "application/json"@,
        authorization: "Bearer "@ + api_key,
        body: request_json(RequestView { messages, model, stream }),
    }
}

/// A client of the endpoint.
#[derive(Clone, Debug, PartialEq, Eq)]
pub struct Client {
    model: Model,
    api_key: String,
}

impl Client {
    /// The model that this client asks.
    pub closed spec fn model(&self) -> Model {
        self.model
    }

    /// The key that this client asks with.
    pub closed spec fn api_key(&self) -> Seq<char> {
        self.api_key@
    }

    /// A client that asks `model` with the key `api_key`.
    pub fn new(model: Model, api_key: &str) -> (c: Client)
        ensures
            c.model() == model,
            c.api_key() == api_key@,
    {
        Client { model, api_key: api_key.to_owned() }
    }

    /// The POST for a dialog. A dialog without messages is refused.
    pub fn post_request(&self, messages: Vec<Message>, stream: bool) -> (r: Result<
        PostRequest,
        RequestError,
    >)
        ensures
            match r {
                Ok(p) => messages@.len() > 0 && p@ == post_for(
                    self.model(),
                    self.api_key(),
                    message_views(messages@),
                    stream,
                ),
                Err(e) => messages@.len() == 0 && e == RequestError::EmptyDialog,
            },
    {
        let request = match ChatCompletionRequest::new(self.model, messages, stream) {
            Ok(x) => x,
            Err(e) => {
                return Err(e);
            },
        };
        let body = match request.to_json() {
            Ok(x) => x,
            Err(e) => {
                return Err(e);
            },
        };
        let mut authorization: String = "Bearer ".to_owned();
        authorization.append(self.api_key.as_str());
        Ok(
            PostRequest {
                url: API_URL.to_owned(),
                content_type: "application/json".to_owned(),
                accept: "application/json".to_owned(),
                authorization,
                body,
            },
        )
    }

    /// The POST that asks for a complete answer.
    pub fn chat_request(&self, messages: Vec<Message>) -> (r: Result<PostRequest, RequestError>)
        ensures
            match r {
                Ok(p) => messages@.len() > 0 && p@ == post_for(
                    self.model(),
                    self.api_key(),
                    message_views(messages@),
                    false,
                ),
                Err(e) => messages@.len() == 0 && e == RequestError::EmptyDialog,
            },
    {
        self.post_request(messages, false)
    }

    /// The POST that asks for a streamed answer.
    pub fn streaming_request(&self, messages: Vec<Message>) -> (r: Result<
        PostRequest,
        RequestError,
    >)
        ensures
            match r {
                Ok(p) => messages@.len() > 0 && p@ == post_for(
                    self.model(),
                    self.api_key(),
                    message_views(messages@),
                    true,
                ),
                Err(e) => messages@.len() == 0 && e == RequestError::EmptyDialog,
            },
    {
        self.post_request(messages, true)
    }
}

/// Reads the reply to a request for a complete answer: its status and its
/// whole body. A status that is not a success is a transport error; a body
/// that does not encode an answer is a decoding error.
pub fn read_reply(status: u16, body: &[u8]) -> (r: Result<Response, SessionError>)
    ensures
        match r {
            Ok(x) => is_success(status) && spec_parse_response(body@) == Some(x@),
            Err(e) => if !is_success(status) {
                e == SessionError::Transport
            } else {
                e == SessionError::Decode(DecodeError::Json) && spec_parse_response(body@) is None
            },
        },
{
    if !(200 <= status && status <= 299) {
        return Err(SessionError::Transport);
    }
    match Response::parse(body) {
        Ok(x) => Ok(x),
        Err(e) => Err(SessionError::Decode(e)),
    }
}

} // verus!
