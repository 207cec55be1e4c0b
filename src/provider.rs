//! The closed set of vendors, chosen by name, and how each one's failures
//! and complete answers are read.

use vstd::prelude::*;
use crate::error::{decimal, decimal_string, AppError};
use crate::json::{json_text_at, lookup_text};
use crate::text::{chars_of, same_text};
use vstd::utf8::encode_utf8;

verus! {

#[derive(Debug, Clone, Copy, PartialEq, Eq, Structural)]
pub enum Provider {
    OpenAI,
    Anthropic,
    OpenRouter,
    Xai,
    Gemini,
}

pub open spec fn provider_named(name: Seq<char>) -> Option<Provider> {
    if name == "openai"@ {
        Some(Provider::OpenAI)
    } else if name == "anthropic"@ {
        Some(Provider::Anthropic)
    } else if name == "openrouter"@ {
        Some(Provider::OpenRouter)
    } else if name == "xai"@ {
        Some(Provider::Xai)
    } else if name == "gemini"@ {
        Some(Provider::Gemini)
    } else {
        None
    }
}

/// The message of an unknown vendor name.
pub open spec fn unsupported_message(name: Seq<char>) -> Seq<char> {
    "provider '"@ + name + "' is not supported."@
}

pub open spec fn supports_web_search_spec(p: Provider) -> bool {
    match p {
        Provider::OpenAI => false,
        Provider::Anthropic => true,
        Provider::OpenRouter => true,
        Provider::Xai => false,
        Provider::Gemini => true,
    }
}

/// The vendor's name as its failures are reported.
pub open spec fn label_of(p: Provider) -> Seq<char> {
    match p {
        Provider::OpenAI => "OpenAI"@,
        Provider::Anthropic => "Anthropic"@,
        Provider::OpenRouter => "OpenRouter"@,
        Provider::Xai => "xAI"@,
        Provider::Gemini => "Gemini"@,
    }
}

/// The generic message for a failed status when the body says nothing.
pub open spec fn status_message(p: Provider, code: u16) -> Seq<char> {
    if code == 429 {
        "Rate limit exceeded"@
    } else if code == 401 {
        "Invalid API key"@
    } else if code == 400 {
        "Bad request"@
    } else if code == 503 {
        if p == Provider::Gemini {
            "Service Unavailable"@
        } else {
            "Service temporarily unavailable"@
        }
    } else {
        "HTTP "@ + decimal(code as nat)
    }
}

/// The message when the body is JSON without an error message in it.
pub open spec fn default_message(p: Provider) -> Seq<char> {
    if p == Provider::Gemini {
        "Service Unavailable"@
    } else {
        "Service Error"@
    }
}

/// The message extracted from a failed response with body `body`.
pub open spec fn failure_message(p: Provider, code: u16, body: Seq<char>) -> Seq<char> {
    if body.len() == 0 {
        status_message(p, code)
    } else {
        match json_text_at(encode_utf8(body), "/error/message"@) {
            None => body,
            Some(None) => default_message(p),
            Some(Some(m)) => m,
        }
    }
}

/// Whether `e` is how a failed response (status `code`, body `body`) of
/// vendor `p` is reported: a provider error with the vendor, the status and
/// the extracted message.
pub open spec fn is_failure_of(e: AppError, p: Provider, code: u16, body: Seq<char>) -> bool {
    match e {
        AppError::LLMProviderError { provider, status_code, message } => {
            &&& provider@ == label_of(p)
            &&& status_code == Some(code)
            &&& message@ == failure_message(p, code, body)
        },
        _ => false,
    }
}

/// Pointer to the answer text in a complete (non-streaming) response.
pub open spec fn answer_pointer(p: Provider) -> Seq<char> {
    match p {
        Provider::Anthropic => "/content/0/text"@,
        Provider::Gemini => "/candidates/0/content/parts/0/text"@,
        _ => "/choices/0/message/content"@,
    }
}

/// A client of one vendor, holding the caller's key for it.
#[derive(Debug, Clone)]
pub struct LlmClient {
    pub provider: Provider,
    pub api_key: String,
}

/// The client for the vendor named `provider`; an unknown name is a bad request.
pub fn get_llm_client(provider: &str, api_key: &str) -> (r: Result<LlmClient, AppError>)
    ensures
        match provider_named(provider@) {
            Some(p) => r is Ok && r->Ok_0.provider == p && r->Ok_0.api_key@ == api_key@,
            None => (r is Err && r->Err_0 is BadRequest && r->Err_0->BadRequest_0@
                == unsupported_message(provider@)),
        },
{
    match Provider::from_name(provider) {
        Ok(p) => Ok(LlmClient { provider: p, api_key: String::from_str(api_key) }),
        Err(e) => Err(e),
    }
}

impl Provider {
    /// Selects the vendor by its name; an unknown name is a bad request.
    pub fn from_name(name: &str) -> (r: Result<Provider, AppError>)
        ensures
            match provider_named(name@) {
                Some(p) => r == Ok::<Provider, AppError>(p),
                None => (r is Err && r->Err_0 is BadRequest && r->Err_0->BadRequest_0@
                    == unsupported_message(name@)),
            },
    {
        if same_text(name, "openai") {
            Ok(Provider::OpenAI)
        } else if same_text(name, "anthropic") {
            Ok(Provider::Anthropic)
        } else if same_text(name, "openrouter") {
            Ok(Provider::OpenRouter)
        } else if same_text(name, "xai") {
            Ok(Provider::Xai)
        } else if same_text(name, "gemini") {
            Ok(Provider::Gemini)
        } else {
            let mut m = String::from_str("provider '");
            m.append(name);
            m.append("' is not supported.");
            Err(AppError::BadRequest(m))
        }
    }

    /// Whether the vendor can ground its answer in a web search.
    pub fn supports_web_search(&self) -> (r: bool)
        ensures
            r == supports_web_search_spec(*self),
    {
        match self {
            Provider::OpenAI => false,
            Provider::Anthropic => true,
            Provider::OpenRouter => true,
            Provider::Xai => false,
            Provider::Gemini => true,
        }
    }

    pub fn label(&self) -> (r: String)
        ensures
            r@ == label_of(*self),
    {
        match self {
            Provider::OpenAI => String::from_str("OpenAI"),
            Provider::Anthropic => String::from_str("Anthropic"),
            Provider::OpenRouter => String::from_str("OpenRouter"),
            Provider::Xai => String::from_str("xAI"),
            Provider::Gemini => String::from_str("Gemini"),
        }
    }

    /// The generic message for a failed status code.
    pub fn status_message(&self, code: u16) -> (r: String)
        ensures
            r@ == status_message(*self, code),
    {
        if code == 429 {
            String::from_str("Rate limit exceeded")
        } else if code == 401 {
            String::from_str("Invalid API key")
        } else if code == 400 {
            String::from_str("Bad request")
        } else if code == 503 {
            match self {
                Provider::Gemini => String::from_str("Service Unavailable"),
                _ => String::from_str("Service temporarily unavailable"),
            }
        } else {
            let mut r = String::from_str("HTTP ");
            let d = decimal_string(code);
            r.append(d.as_str());
            r
        }
    }

    /// The human-readable message of a failed response: the vendor's error
    /// envelope message, else the raw body, else a message for the status.
    pub fn failure_message(&self, code: u16, body: &str) -> (r: String)
        ensures
            r@ == failure_message(*self, code, body@),
    {
        let cs = chars_of(body);
        if cs.len() == 0 {
            return self.status_message(code);
        }
        let found = lookup_text(body.as_bytes(), "/error/message");
        match found {
            None => String::from_str(body),
            Some(None) => match self {
                Provider::Gemini => String::from_str("Service Unavailable"),
                _ => String::from_str("Service Error"),
            },
            Some(Some(m)) => m,
        }
    }

    /// The error a failed response of this vendor is reported as.
    pub fn failure(&self, code: u16, body: &str) -> (r: AppError)
        ensures
            is_failure_of(r, *self, code, body@),
    {
        AppError::LLMProviderError {
            provider: self.label(),
            status_code: Some(code),
            message: self.failure_message(code, body),
        }
    }

    /// The answer text of a complete response body; a body that is not JSON
    /// is an internal error, a missing answer is empty.
    pub fn answer_text(&self, body: &[u8]) -> (r: Result<String, AppError>)
        ensures
            match json_text_at(body@, answer_pointer(*self)) {
                None => r == Err::<String, AppError>(AppError::InternalServerError),
                Some(None) => r is Ok && r->Ok_0@.len() == 0,
                Some(Some(t)) => r is Ok && r->Ok_0@ == t,
            },
    {
        let found = match self {
            Provider::Anthropic => lookup_text(body, "/content/0/text"),
            Provider::Gemini => lookup_text(body, "/candidates/0/content/parts/0/text"),
            _ => lookup_text(body, "/choices/0/message/content"),
        };
        match found {
            None => Err(AppError::InternalServerError),
            Some(None) => Ok(String::new()),
            Some(Some(t)) => Ok(t),
        }
    }
}

} // verus!
