use vstd::prelude::*;

use crate::message::CompletionRequest;
use crate::wire::{MessagesRequest, WireMessage, WireSystemPrompt, wire_message};

verus! {

/// A URL, as parsed by the `url` crate.
#[verifier::external_type_specification]
#[verifier::external_body]
pub struct ExUrl(url::Url);

/// The reason why the `url` crate could not parse a URL.
#[verifier::external_type_specification]
#[verifier::external_body]
pub struct ExParseError(url::ParseError);

/// The URL that `url::Url::join` resolves `input` to against `base`, or `None`
/// where it cannot parse one.
pub uninterp spec fn joined_url(base: url::Url, input: Seq<char>) -> Option<url::Url>;

/// Relies on `url::Url::join` to resolve a path against the service's base URL:
/// its result depends on the base and the input alone, and it fails, without
/// panicking, on an input it cannot parse.
pub assume_specification[ url::Url::join ](base: &url::Url, input: &str) -> (r: Result<
    url::Url,
    url::ParseError,
>)
    ensures
        match r {
            Ok(u) => joined_url(*base, input@) == Some(u),
            Err(_) => joined_url(*base, input@) is None,
        },
;

/// The version of the provider's API that requests are written for.
pub const API_VERSION: &'static str = "2023-06-01";

/// The path of the endpoint for completions, below the base URL.
pub const MESSAGES_PATH: &'static str = "/v1/messages";

/// The name of the header that carries the API key.
pub const API_KEY_HEADER: &'static str = "x-api-key";

/// The name of the header that carries the API version.
pub const VERSION_HEADER: &'static str = "anthropic-version";

/// How to reach the provider, and what to ask of it.
pub struct AnthropicLlmClientConfig {
    pub base_url: url::Url,
    pub api_key: String,
    pub model: String,
    pub max_tokens: u32,
}

/// A client of the provider's streaming completion API.
pub struct AnthropicLlmClient {
    pub config: AnthropicLlmClientConfig,
}

impl AnthropicLlmClient {
    /// The body of a streamed completion request for this conversation: the
    /// configured model and token limit, each system prompt and each message in
    /// wire form, in order.
    pub fn messages_request(&self, request: &CompletionRequest) -> (r: MessagesRequest)
        ensures
            r.model@ == self.config.model@,
            r.max_tokens == self.config.max_tokens,
            r.stream,
            r.system@.len() == request.system@.len(),
            forall|i: int|
                0 <= i < r.system@.len() ==> (#[trigger] r.system@[i]).text@
                    == request.system@[i].content@ && r.system@[i].encoding_type@ == "text"@,
            r.messages@.len() == request.messages@.len(),
            forall|i: int|
                0 <= i < r.messages@.len() ==> (#[trigger] r.messages@[i])@ == wire_message(
                    request.messages@[i]@,
                ),
    {
        let mut system: Vec<WireSystemPrompt> = Vec::new();
        let mut i: usize = 0;
        while i < request.system.len()
            invariant
                0 <= i <= request.system@.len(),
                system@.len() == i,
                forall|j: int|
                    0 <= j < i ==> (#[trigger] system@[j]).text@ == request.system@[j].content@
                        && system@[j].encoding_type@ == "text"@,
            decreases request.system@.len() - i,
        {
            system.push(WireSystemPrompt::from_system_prompt(&request.system[i]));
            i = i + 1;
        }
        let mut messages: Vec<WireMessage> = Vec::new();
        let mut k: usize = 0;
        while k < request.messages.len()
            invariant
                0 <= k <= request.messages@.len(),
                messages@.len() == k,
                forall|j: int|
                    0 <= j < k ==> (#[trigger] messages@[j])@ == wire_message(
                        request.messages@[j]@,
                    ),
            decreases request.messages@.len() - k,
        {
            messages.push(WireMessage::from_message(&request.messages[k]));
            k = k + 1;
        }
        MessagesRequest {
            model: self.config.model.clone(),
            max_tokens: self.config.max_tokens,
            system,
            messages,
            stream: true,
        }
    }

    /// The headers of a request: the API key and the API version, in this order.
    pub fn request_headers(&self) -> (r: Vec<(String, String)>)
        ensures
            r@.len() == 2,
            r@[0].0@ == API_KEY_HEADER@,
            r@[0].1@ == self.config.api_key@,
            r@[1].0@ == VERSION_HEADER@,
            r@[1].1@ == API_VERSION@,
    {
        let mut r: Vec<(String, String)> = Vec::new();
        r.push((API_KEY_HEADER.to_owned(), self.config.api_key.clone()));
        r.push((VERSION_HEADER.to_owned(), API_VERSION.to_owned()));
        r
    }

    /// The URL of the endpoint for completions, or `None` when it cannot be
    /// resolved against the configured base URL.
    pub fn messages_url(&self) -> (r: Option<url::Url>)
        ensures
            r == joined_url(self.config.base_url, MESSAGES_PATH@),
    {
        match self.config.base_url.join(MESSAGES_PATH) {
            Ok(url) => Some(url),
            Err(_) => None,
        }
    }
}

} // verus!
