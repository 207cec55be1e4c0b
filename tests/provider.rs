use backend::auth::{google_auth_url, parse_flag};
use backend::conversation::Turn;
use backend::error::{decimal_string, AppError};
use backend::models::{
    anthropic_models, gemini_models, is_openai_excluded, listing_provider, openai_models,
    openrouter_models, xai_models,
};
use backend::provider::{get_llm_client, Provider};
use backend::records::{AnthropicModel, Claims, GeminiModel, Model, OpenRouterModel};
use backend::request::{build_request, Auth, RequestBody};
use backend::sse::SseDecoder;

fn s(x: &str) -> String {
    x.to_string()
}

fn turn(role: &str, content: &str) -> Turn {
    Turn { role: s(role), content: s(content) }
}

#[test]
fn error_statuses_and_texts() {
    assert_eq!(AppError::NotFound.status_code(), 404);
    assert_eq!(AppError::Unauthorized.status_code(), 401);
    assert_eq!(AppError::BadRequest(s("x")).status_code(), 400);
    assert_eq!(AppError::InternalServerError.status_code(), 500);
    assert_eq!(AppError::DatabaseError.status_code(), 500);
    assert_eq!(AppError::JwtError.status_code(), 401);
    assert_eq!(AppError::PasswordHashError.status_code(), 500);
    assert_eq!(AppError::NotFound.to_string(), "Not Found");
    assert_eq!(AppError::DatabaseError.to_string(), "Database operation failed");
    assert_eq!(AppError::JwtError.to_string(), "Invalid token");
    assert_eq!(AppError::PasswordHashError.to_string(), "Could not process request");
    assert_eq!(AppError::BadRequest(s("nope")).to_string(), "nope");
}

#[test]
fn provider_error_status_mapping() {
    let e = |c: Option<u16>| AppError::LLMProviderError { provider: s("Gemini"), status_code: c, message: s("m") };
    assert_eq!(e(Some(429)).status_code(), 429);
    assert_eq!(e(Some(42)).status_code(), 502);
    assert_eq!(e(Some(1000)).status_code(), 502);
    assert_eq!(e(None).status_code(), 502);
    assert_eq!(e(None).to_string(), "Gemini: m");
    assert_eq!(e(Some(503)).to_string(), "Gemini (HTTP 503): m");
}

#[test]
fn decimal_rendering() {
    assert_eq!(decimal_string(0), "0");
    assert_eq!(decimal_string(7), "7");
    assert_eq!(decimal_string(65535), "65535");
}

#[test]
fn providers_by_name() {
    assert_eq!(Provider::from_name("openai").unwrap(), Provider::OpenAI);
    assert_eq!(Provider::from_name("anthropic").unwrap(), Provider::Anthropic);
    assert_eq!(Provider::from_name("openrouter").unwrap(), Provider::OpenRouter);
    assert_eq!(Provider::from_name("xai").unwrap(), Provider::Xai);
    assert_eq!(Provider::from_name("gemini").unwrap(), Provider::Gemini);
    assert!(matches!(Provider::from_name("OpenAI"), Err(AppError::BadRequest(_))));
    assert!(!Provider::OpenAI.supports_web_search());
    assert!(Provider::Gemini.supports_web_search());
    match listing_provider("foo") {
        Err(AppError::BadRequest(m)) => assert_eq!(m, "provider 'foo' is not supported for model fetching."),
        _ => panic!("expected a bad request"),
    }
}

#[test]
fn failure_messages() {
    let p = Provider::OpenAI;
    assert_eq!(p.failure_message(429, ""), "Rate limit exceeded");
    assert_eq!(p.failure_message(401, ""), "Invalid API key");
    assert_eq!(p.failure_message(400, ""), "Bad request");
    assert_eq!(p.failure_message(503, ""), "Service temporarily unavailable");
    assert_eq!(Provider::Gemini.failure_message(503, ""), "Service Unavailable");
    assert_eq!(p.failure_message(418, ""), "HTTP 418");
    assert_eq!(p.failure_message(500, r#"{"error":{"message":"quota gone"}}"#), "quota gone");
    assert_eq!(p.failure_message(500, r#"{"detail":1}"#), "Service Error");
    assert_eq!(Provider::Gemini.failure_message(500, r#"{"detail":1}"#), "Service Unavailable");
    assert_eq!(p.failure_message(502, "bad gateway page"), "bad gateway page");
}

#[test]
fn failures_by_vendor() {
    match Provider::Anthropic.failure(401, "") {
        AppError::LLMProviderError { provider, status_code, message } => {
            assert_eq!(provider, "Anthropic");
            assert_eq!(status_code, Some(401));
            assert_eq!(message, "Invalid API key");
        }
        _ => panic!("expected a provider error"),
    }
    match Provider::Xai.failure(500, r#"{"error":{"message":"model overloaded"}}"#) {
        AppError::LLMProviderError { provider, status_code, message } => {
            assert_eq!(provider, "xAI");
            assert_eq!(status_code, Some(500));
            assert_eq!(message, "model overloaded");
        }
        _ => panic!("expected a provider error"),
    }
    match Provider::OpenRouter.failure(429, "") {
        AppError::LLMProviderError { provider, status_code, message } => {
            assert_eq!(provider, "OpenRouter");
            assert_eq!(status_code, Some(429));
            assert_eq!(message, "Rate limit exceeded");
        }
        _ => panic!("expected a provider error"),
    }
    assert_eq!(Provider::OpenRouter.failure(503, "").status_code(), 503);
}

#[test]
fn complete_answers() {
    let b = br#"{"choices":[{"message":{"content":"hi there"}}]}"#;
    assert_eq!(Provider::OpenAI.answer_text(b).unwrap(), "hi there");
    let b = br#"{"content":[{"type":"text","text":"model says"}]}"#;
    assert_eq!(Provider::Anthropic.answer_text(b).unwrap(), "model says");
    let b = br#"{"candidates":[{"content":{"parts":[{"text":"gem"}]}}]}"#;
    assert_eq!(Provider::Gemini.answer_text(b).unwrap(), "gem");
    assert_eq!(Provider::OpenAI.answer_text(br#"{"choices":[]}"#).unwrap(), "");
    assert!(matches!(Provider::OpenAI.answer_text(b"not json"), Err(AppError::InternalServerError)));
}

#[test]
fn openai_stream_lines_split_across_chunks() {
    let mut d = SseDecoder::new(Provider::OpenAI);
    let a = d.feed(b"data: {\"choices\":[{\"delta\":{\"content\":\"Hel\"}}]}\ndata: {\"choices\":[{\"del");
    assert_eq!(a, vec![s("Hel")]);
    let b = d.feed(b"ta\":{\"content\":\"lo\"}}]}\n\ndata: {\"choices\":[{\"delta\":{}}]}\n");
    assert_eq!(b, vec![s("lo")]);
    let c = d.feed(b"data: not json\ndata: {\"choices\":[{\"delta\":{\"content\":\"\"}}]}\ndata: [DONE]\ndata: {\"choices\":[{\"delta\":{\"content\":\"late\"}}]}\n");
    assert!(c.is_empty());
    assert!(d.is_done());
    assert!(d.feed(b"data: {\"choices\":[{\"delta\":{\"content\":\"x\"}}]}\n").is_empty());
}

#[test]
fn anthropic_stream_reads_text_deltas_only() {
    let mut d = SseDecoder::new(Provider::Anthropic);
    let out = d.feed(b"event: message_start\ndata: {\"type\":\"message_start\"}\ndata: {\"type\":\"content_block_delta\",\"delta\":{\"type\":\"text_delta\",\"text\":\"Hi\"}}\ndata: {\"type\":\"ping\",\"delta\":{\"text\":\"no\"}}\n");
    assert_eq!(out, vec![s("Hi")]);
}

#[test]
fn gemini_stream_reads_first_part() {
    let mut d = SseDecoder::new(Provider::Gemini);
    let out = d.feed(b"data: {\"candidates\":[{\"content\":{\"parts\":[{\"text\":\"A\"},{\"text\":\"B\"}]}}]}\ndata: \ndata: {\"groundingMetadata\":{}}\n");
    assert_eq!(out, vec![s("A")]);
    assert!(!d.is_done());
}

#[test]
fn anthropic_request_lifts_system_entry() {
    let conv = vec![turn("system", "be brief"), turn("user", "hi"), turn("assistant", "yo"), turn("user", "again")];
    let r = build_request(Provider::Anthropic, "k", "sonnet-reasoning", &conv, true, true);
    assert_eq!(r.url, "https://api.anthropic.com/v1/messages");
    assert!(matches!(r.auth, Auth::AnthropicKey(ref k) if k == "k"));
    match r.body {
        RequestBody::Anthropic { model, max_tokens, messages, system, stream, web_search } => {
            assert_eq!(model, "sonnet-reasoning");
            assert_eq!(max_tokens, 8192);
            assert_eq!(messages.len(), 3);
            assert_eq!(messages[0].content, "hi");
            assert_eq!(system, Some(s("be brief")));
            assert!(stream && web_search);
        }
        _ => panic!("expected an Anthropic body"),
    }
    let r = build_request(Provider::Anthropic, "k", "sonnet-reasoning", &conv, false, false);
    assert!(matches!(r.body, RequestBody::Anthropic { max_tokens: 4096, .. }));
}

#[test]
fn gemini_request_maps_roles_and_url() {
    let conv = vec![turn("system", "s"), turn("user", "hi"), turn("assistant", "yo")];
    let r = build_request(Provider::Gemini, "KEY", "gemini-pro", &conv, true, false);
    assert_eq!(r.url, "https://generativelanguage.googleapis.com/v1beta/models/gemini-pro:streamGenerateContent?alt=sse&key=KEY");
    assert!(matches!(r.auth, Auth::InUrl));
    match r.body {
        RequestBody::Gemini { contents, generation_config, google_search } => {
            assert_eq!(contents.len(), 2);
            assert_eq!(contents[0].role, "user");
            assert_eq!(contents[1].role, "model");
            assert!(generation_config);
            assert!(!google_search);
        }
        _ => panic!("expected a Gemini body"),
    }
    let r = build_request(Provider::Gemini, "KEY", "gemini-pro", &conv, false, false);
    assert_eq!(r.url, "https://generativelanguage.googleapis.com/v1beta/models/gemini-pro:generateContent?key=KEY");
}

#[test]
fn openrouter_web_search_uses_online_model() {
    let conv = vec![turn("user", "hi")];
    let r = build_request(Provider::OpenRouter, "k", "meta/llama", &conv, true, true);
    assert!(matches!(r.body, RequestBody::OpenAiStyle { ref model, .. } if model == "meta/llama:online"));
    let r = build_request(Provider::OpenRouter, "k", "meta/llama:online", &conv, true, true);
    assert!(matches!(r.body, RequestBody::OpenAiStyle { ref model, .. } if model == "meta/llama:online"));
    let r = build_request(Provider::Xai, "k", "grok-2", &conv, false, false);
    assert_eq!(r.url, "https://api.x.ai/v1/chat/completions");
    assert!(matches!(r.auth, Auth::Bearer(ref k) if k == "k"));
}

fn model(id: &str, created: i64) -> Model {
    Model { id: s(id), object: s("model"), created, owned_by: s("o") }
}

#[test]
fn openai_listing_filters_and_sorts() {
    assert!(is_openai_excluded("whisper-1"));
    assert!(is_openai_excluded("text-embedding-3-small"));
    assert!(is_openai_excluded("GPT-4o-Realtime"));
    assert!(is_openai_excluded("davinci-001"));
    assert!(!is_openai_excluded("davinci-002"));
    assert!(!is_openai_excluded("gpt-4o"));
    let data = vec![model("gpt-3.5", 10), model("tts-1", 50), model("gpt-4o", 30), model("o1", 30), model("gpt-4", 20)];
    let r = openai_models(&data);
    let ids: Vec<&str> = r.iter().map(|m| m.id.as_str()).collect();
    assert_eq!(ids, vec!["gpt-4o", "o1", "gpt-4", "gpt-3.5"]);
    assert_eq!(r[0].provider, "openai");
    assert_eq!(r[0].name, "gpt-4o");
}

#[test]
fn xai_and_openrouter_listings() {
    let r = xai_models(&vec![model("grok-2-vision-1212", 5)]);
    assert_eq!(r[0].name, "Grok 2 vision 1212");
    assert_eq!(r[0].context_length, Some(131072));
    let r = openrouter_models(&vec![OpenRouterModel { id: s("a/b"), name: s("B"), created: 3, description: s("d"), context_length: 8000 }]);
    assert_eq!(r[0].provider, "openrouter");
    assert_eq!(r[0].description, Some(s("d")));
    assert_eq!(r[0].context_length, Some(8000));
}

#[test]
fn gemini_listing() {
    let data = vec![
        GeminiModel { name: s("models/gemini-1.5-pro"), description: Some(s("pro")) },
        GeminiModel { name: s("models/text-embedding-004"), description: None },
        GeminiModel { name: s("models/gemini-pro-vision"), description: None },
    ];
    let r = gemini_models(&data);
    assert_eq!(r.len(), 1);
    assert_eq!(r[0].id, "gemini-1.5-pro");
    assert_eq!(r[0].name, "Gemini 1.5 pro");
    assert_eq!(r[0].created, 0);
}

#[test]
fn anthropic_listing_reads_dates() {
    let data = vec![
        AnthropicModel { id: s("sonnet-3"), display_name: Some(s("Sonnet 3")), created_at: Some(s("2024-02-29T00:00:00Z")) },
        AnthropicModel { id: s("sonnet-x"), display_name: None, created_at: Some(s("yesterday")) },
    ];
    let r = anthropic_models(&data);
    assert_eq!(r[0].name, "Sonnet 3");
    assert_eq!(r[0].created, 1709164800);
    assert_eq!(r[1].name, "sonnet-x");
    assert_eq!(r[1].created, 0);
    assert_eq!(r[1].context_length, Some(200000));
}

#[test]
fn google_url_encodes_redirect() {
    let u = google_auth_url(&Some(s("cid")), "http://localhost:5173/auth/callback", "st8").unwrap();
    assert_eq!(u, "https://accounts.google.com/o/oauth2/auth?client_id=cid&redirect_uri=http%3A%2F%2Flocalhost%3A5173%2Fauth%2Fcallback&scope=openid email profile&response_type=code&state=st8");
    assert!(matches!(google_auth_url(&None, "x", "y"), Err(AppError::BadRequest(_))));
}

#[test]
fn flags_and_claims() {
    assert!(parse_flag("TRUE"));
    assert!(parse_flag("1"));
    assert!(!parse_flag("yes"));
    let c = Claims::issue(s("u"), 1000);
    assert_eq!(c.exp, 1000 + 604800);
    assert_eq!(c.iat, 1000);
}

#[test]
fn clients_by_vendor_name() {
    let c = get_llm_client("xai", "sk-x").unwrap();
    assert_eq!(c.provider, Provider::Xai);
    assert_eq!(c.api_key, "sk-x");
    match get_llm_client("nope", "k") {
        Err(AppError::BadRequest(m)) => assert_eq!(m, "provider 'nope' is not supported."),
        _ => panic!("expected a bad request"),
    }
}

#[test]
fn chunk_boundaries_do_not_change_the_deltas() {
    let body: &[u8] = b"data: {\"choices\":[{\"delta\":{\"content\":\"caf\xc3\xa9 \"}}]}\n\ndata: {\"choices\":[{\"delta\":{\"content\":\"ok\"}}]}\ndata: [DONE]\n";
    let mut whole = SseDecoder::new(Provider::OpenRouter);
    let expected = whole.feed(body);
    assert_eq!(expected, vec![s("café "), s("ok")]);
    let mut bytewise = SseDecoder::new(Provider::OpenRouter);
    let mut got = Vec::new();
    for b in body.iter() {
        got.extend(bytewise.feed(&[*b]));
    }
    assert_eq!(got, expected);
    assert!(bytewise.is_done());
}
