//! Shaping one provider request from a conversation: where it goes, how it
//! authenticates, and the body in the vendor's vocabulary.

use vstd::prelude::*;
use crate::conversation::{turns_view, Turn, TurnView};
use crate::provider::Provider;
use crate::text::{contains, contains_text, same_text};

verus! {

/// How a request carries the API key.
#[derive(Debug, Clone)]
pub enum Auth {
    /// `Authorization: Bearer <key>`.
    Bearer(String),
    /// `x-api-key: <key>` with `anthropic-version: 2023-06-01`.
    AnthropicKey(String),
    /// The key is a query parameter of the URL.
    InUrl,
}

/// The JSON body of a request, vendor by vendor.
#[derive(Debug, Clone)]
pub enum RequestBody {
    /// `{model, messages, stream?}`.
    OpenAiStyle { model: String, messages: Vec<Turn>, stream: bool },
    /// `{model, max_tokens, messages, system?, stream?, tools?}`; system
    /// entries are lifted out of the messages.
    Anthropic {
        model: String,
        max_tokens: u32,
        messages: Vec<Turn>,
        system: Option<String>,
        stream: bool,
        web_search: bool,
    },
    /// `{contents, generationConfig?, tools?}`; roles are "user" and "model",
    /// system entries are left out.
    Gemini { contents: Vec<Turn>, generation_config: bool, google_search: bool },
}

#[derive(Debug, Clone)]
pub struct ChatRequest {
    pub url: String,
    pub auth: Auth,
    pub body: RequestBody,
}

pub open spec fn is_system(t: TurnView) -> bool {
    t.role == "system"@
}

/// The entries that are not system entries, in order.
pub open spec fn non_system(ts: Seq<TurnView>) -> Seq<TurnView>
    decreases ts.len(),
{
    if ts.len() == 0 {
        seq![]
    } else if is_system(ts.last()) {
        non_system(ts.drop_last())
    } else {
        non_system(ts.drop_last()).push(ts.last())
    }
}

/// The content of the last system entry, if any.
pub open spec fn last_system(ts: Seq<TurnView>) -> Option<Seq<char>>
    decreases ts.len(),
{
    if ts.len() == 0 {
        None
    } else if is_system(ts.last()) {
        Some(ts.last().content)
    } else {
        last_system(ts.drop_last())
    }
}

pub open spec fn gemini_turn(t: TurnView) -> TurnView {
    TurnView { role: if t.role == "user"@ { "user"@ } else { "model"@ }, content: t.content }
}

/// Gemini contents: non-system entries with roles "user" or "model".
pub open spec fn gemini_contents(ts: Seq<TurnView>) -> Seq<TurnView> {
    non_system(ts).map_values(|t: TurnView| gemini_turn(t))
}

/// The model an OpenRouter web search runs on.
pub open spec fn online_model(model: Seq<char>) -> Seq<char> {
    if contains(model, ":online"@) {
        model
    } else {
        model + ":online"@
    }
}

/// Anthropic's output budget: larger for reasoning models when streaming.
pub open spec fn anthropic_max_tokens(model: Seq<char>, stream: bool) -> u32 {
    if stream && contains(model, "reasoning"@) {
        8192
    } else {
        4096
    }
}

pub open spec fn request_url(p: Provider, key: Seq<char>, model: Seq<char>, stream: bool) -> Seq<
    char,
> {
    match p {
        Provider::OpenAI => "https://api.openai.com/v1/chat/completions"@,
        Provider::Anthropic => "https://api.anthropic.com/v1/messages"@,
        Provider::OpenRouter => "https://openrouter.ai/api/v1/chat/completions"@,
        Provider::Xai => "https://api.x.ai/v1/chat/completions"@,
        Provider::Gemini => "https://generativelanguage.googleapis.com/v1beta/models/"@ + model + (
        if stream {
            ":streamGenerateContent?alt=sse&key="@
        } else {
            ":generateContent?key="@
        }) + key,
    }
}

/// Whether `b` is the body vendor `p` is sent for `conv` on `model`.
pub open spec fn body_matches(
    b: RequestBody,
    p: Provider,
    model: Seq<char>,
    conv: Seq<TurnView>,
    stream: bool,
    web_search: bool,
) -> bool {
    match p {
        Provider::Anthropic => match b {
            RequestBody::Anthropic { model: m, max_tokens, messages, system, stream: s, web_search: w } => {
                &&& m@ == model
                &&& max_tokens == anthropic_max_tokens(model, stream)
                &&& turns_view(messages@) == non_system(conv)
                &&& crate::conversation::option_view(&system) == last_system(conv)
                &&& s == stream
                &&& w == web_search
            },
            _ => false,
        },
        Provider::Gemini => match b {
            RequestBody::Gemini { contents, generation_config, google_search } => {
                &&& turns_view(contents@) == gemini_contents(conv)
                &&& generation_config == stream
                &&& google_search == web_search
            },
            _ => false,
        },
        _ => match b {
            RequestBody::OpenAiStyle { model: m, messages, stream: s } => {
                &&& m@ == (if p == Provider::OpenRouter && web_search {
                    online_model(model)
                } else {
                    model
                })
                &&& turns_view(messages@) == conv
                &&& s == stream
            },
            _ => false,
        },
    }
}

pub open spec fn auth_matches(a: Auth, p: Provider, key: Seq<char>) -> bool {
    match p {
        Provider::Anthropic => match a {
            Auth::AnthropicKey(k) => k@ == key,
            _ => false,
        },
        Provider::Gemini => a is InUrl,
        _ => match a {
            Auth::Bearer(k) => k@ == key,
            _ => false,
        },
    }
}

fn split_system(conv: &Vec<Turn>) -> (r: (Vec<Turn>, Option<String>))
    ensures
        turns_view(r.0@) == non_system(turns_view(conv@)),
        crate::conversation::option_view(&r.1) == last_system(turns_view(conv@)),
{
    let mut rest: Vec<Turn> = Vec::new();
    let mut system: Option<String> = None;
    let mut i: usize = 0;
    while i < conv.len()
        invariant
            i <= conv.len(),
            turns_view(rest@) == non_system(turns_view(conv@.take(i as int))),
            crate::conversation::option_view(&system) == last_system(turns_view(conv@.take(i as int))),
        decreases conv.len() - i,
    {
        let t = &conv[i];
        proof {
            let tv = turns_view(conv@.take(i + 1));
            assert(tv.drop_last() =~= turns_view(conv@.take(i as int)));
            assert(tv.last() == t@);
        }
        if same_text(t.role.as_str(), "system") {
            system = Some(t.content.clone());
        } else {
            let ghost prev = rest@;
            let c = Turn { role: t.role.clone(), content: t.content.clone() };
            rest.push(c);
            assert(turns_view(rest@) =~= turns_view(prev).push(c@));
        }
        i = i + 1;
    }
    assert(conv@.take(conv.len() as int) =~= conv@);
    (rest, system)
}

fn gemini_of(conv: &Vec<Turn>) -> (r: Vec<Turn>)
    ensures
        turns_view(r@) == gemini_contents(turns_view(conv@)),
{
    let (rest, _) = split_system(conv);
    let mut r: Vec<Turn> = Vec::new();
    let mut i: usize = 0;
    while i < rest.len()
        invariant
            i <= rest.len(),
            turns_view(r@) == turns_view(rest@.take(i as int)).map_values(
                |t: TurnView| gemini_turn(t),
            ),
        decreases rest.len() - i,
    {
        let t = &rest[i];
        let role = if same_text(t.role.as_str(), "user") {
            String::from_str("user")
        } else {
            String::from_str("model")
        };
        let g = Turn { role, content: t.content.clone() };
        let ghost prev = r@;
        r.push(g);
        proof {
            assert(turns_view(r@) =~= turns_view(prev).push(g@));
            assert(turns_view(rest@.take(i + 1)) =~= turns_view(rest@.take(i as int)).push(t@));
            assert(turns_view(rest@.take(i + 1)).map_values(|t: TurnView| gemini_turn(t)) =~= turns_view(
                rest@.take(i as int),
            ).map_values(|t: TurnView| gemini_turn(t)).push(gemini_turn(t@)));
        }
        i = i + 1;
    }
    assert(rest@.take(rest.len() as int) =~= rest@);
    r
}

fn copy_turns(conv: &Vec<Turn>) -> (r: Vec<Turn>)
    ensures
        turns_view(r@) == turns_view(conv@),
{
    let mut r: Vec<Turn> = Vec::new();
    let mut i: usize = 0;
    while i < conv.len()
        invariant
            i <= conv.len(),
            turns_view(r@) == turns_view(conv@.take(i as int)),
        decreases conv.len() - i,
    {
        let t = &conv[i];
        let c = Turn { role: t.role.clone(), content: t.content.clone() };
        let ghost prev = r@;
        r.push(c);
        proof {
            assert(turns_view(r@) =~= turns_view(prev).push(c@));
            assert(turns_view(conv@.take(i + 1)) =~= turns_view(conv@.take(i as int)).push(t@));
        }
        i = i + 1;
    }
    assert(conv@.take(conv.len() as int) =~= conv@);
    r
}

/// Builds the request for `conversation` on `model`. `web_search` asks for
/// the vendor's search grounding; the caller passes it only to vendors that
/// support it.
pub fn build_request(
    provider: Provider,
    api_key: &str,
    model: &str,
    conversation: &Vec<Turn>,
    stream: bool,
    web_search: bool,
) -> (r: ChatRequest)
    ensures
        r.url@ == request_url(provider, api_key@, model@, stream),
        auth_matches(r.auth, provider, api_key@),
        body_matches(r.body, provider, model@, turns_view(conversation@), stream, web_search),
{
    match provider {
        Provider::Anthropic => {
            let (messages, system) = split_system(conversation);
            let max_tokens: u32 = if stream && contains_text(model, "reasoning") {
                8192
            } else {
                4096
            };
            ChatRequest {
                url: String::from_str("https://api.anthropic.com/v1/messages"),
                auth: Auth::AnthropicKey(String::from_str(api_key)),
                body: RequestBody::Anthropic {
                    model: String::from_str(model),
                    max_tokens,
                    messages,
                    system,
                    stream,
                    web_search,
                },
            }
        },
        Provider::Gemini => {
            let mut url = String::from_str("https://generativelanguage.googleapis.com/v1beta/models/");
            url.append(model);
            if stream {
                url.append(":streamGenerateContent?alt=sse&key=");
            } else {
                url.append(":generateContent?key=");
            }
            url.append(api_key);
            ChatRequest {
                url,
                auth: Auth::InUrl,
                body: RequestBody::Gemini {
                    contents: gemini_of(conversation),
                    generation_config: stream,
                    google_search: web_search,
                },
            }
        },
        _ => {
            let url = match provider {
                Provider::OpenAI => String::from_str("https://api.openai.com/v1/chat/completions"),
                Provider::OpenRouter => String::from_str(
                    "https://openrouter.ai/api/v1/chat/completions",
                ),
                _ => String::from_str("https://api.x.ai/v1/chat/completions"),
            };
            let mut m = String::from_str(model);
            let online = match provider {
                Provider::OpenRouter => web_search,
                _ => false,
            };
            if online && !contains_text(model, ":online") {
                m.append(":online");
            }
            ChatRequest {
                url,
                auth: Auth::Bearer(String::from_str(api_key)),
                body: RequestBody::OpenAiStyle {
                    model: m,
                    messages: copy_turns(conversation),
                    stream,
                },
            }
        },
    }
}

} // verus!
