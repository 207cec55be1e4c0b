use backend::error::AppError;
use backend::stream::{begin_stream, StreamRelay};
use backend::keys::{decrypt_api_key, encrypt_api_key};
use backend::provider::Provider;

fn ok(s: &str) -> Result<String, AppError> {
    Ok(s.to_string())
}

#[test]
fn relayed_chunks_are_saved_once() {
    let mut r = StreamRelay::new();
    assert_eq!(r.relay(ok("Hello")), Some("Hello".to_string()));
    assert_eq!(r.relay(ok(", ")), Some(", ".to_string()));
    assert_eq!(r.relay(ok("world")), Some("world".to_string()));
    assert_eq!(r.finish(), Some("Hello, world".to_string()));
    assert_eq!(r.finish(), None);
}

#[test]
fn disconnect_mid_stream_saves_what_was_sent() {
    let items = vec![ok("one "), ok("two "), ok("three")];
    let mut r = StreamRelay::new();
    for item in items.into_iter().take(2) {
        r.relay(item);
    }
    assert_eq!(r.finish(), Some("one two ".to_string()));
}

#[test]
fn failure_before_any_chunk_saves_nothing() {
    let mut r = StreamRelay::new();
    let line = r.relay(Err(AppError::InternalServerError));
    assert_eq!(line, Some("ERROR: Internal Server Error".to_string()));
    assert!(r.is_stopped());
    assert_eq!(r.relay(ok("late")), None);
    assert_eq!(r.finish(), None);
}

#[test]
fn failure_mid_stream_keeps_partial_reply() {
    let mut r = StreamRelay::new();
    r.relay(ok("partial"));
    let line = r.relay(Err(AppError::LLMProviderError {
        provider: "OpenAI".to_string(),
        status_code: Some(429),
        message: "Rate limit exceeded".to_string(),
    }));
    assert_eq!(line, Some("ERROR: OpenAI (HTTP 429): Rate limit exceeded".to_string()));
    assert_eq!(r.finish(), Some("partial".to_string()));
}

#[test]
fn whitespace_only_reply_is_not_saved() {
    let mut r = StreamRelay::new();
    r.relay(ok("  "));
    r.relay(ok("\n"));
    assert_eq!(r.finish(), None);
}

#[test]
fn every_delivered_chunk_is_saved() {
    let mut r = StreamRelay::new();
    assert_eq!(r.relay(ok("ERROR: is a word here")), Some("ERROR: is a word here".to_string()));
    r.relay(ok(", fine"));
    assert_eq!(r.finish(), Some("ERROR: is a word here, fine".to_string()));
}

fn s(x: &str) -> String {
    x.to_string()
}

#[test]
fn stream_on_foreign_chat_is_not_found() {
    let key = Some(encrypt_api_key("master", "sk-1"));
    let r = begin_stream(&Some(s("bob")), &s("alice"), &s("openai"), &key, "master", None);
    assert!(matches!(r, Err(AppError::NotFound)));
    let r = begin_stream(&None, &s("alice"), &s("openai"), &key, "master", None);
    assert!(matches!(r, Err(AppError::NotFound)));
}

#[test]
fn stream_without_key_is_bad_request() {
    let r = begin_stream(&Some(s("alice")), &s("alice"), &s("openai"), &None, "master", None);
    match r {
        Err(AppError::BadRequest(m)) => assert_eq!(m, "api key for provider 'openai' not found."),
        _ => panic!("expected a bad request"),
    }
}

#[test]
fn stream_with_undecryptable_key_is_internal() {
    let key = Some(s("not a ciphertext"));
    let r = begin_stream(&Some(s("alice")), &s("alice"), &s("openai"), &key, "master", None);
    assert!(matches!(r, Err(AppError::InternalServerError)));
}

#[test]
fn stream_with_unknown_provider_is_bad_request() {
    let key = Some(encrypt_api_key("master", "sk-1"));
    let r = begin_stream(&Some(s("alice")), &s("alice"), &s("mistral"), &key, "master", None);
    match r {
        Err(AppError::BadRequest(m)) => assert_eq!(m, "provider 'mistral' is not supported."),
        _ => panic!("expected a bad request"),
    }
}

#[test]
fn stream_start_decrypts_key_and_gates_web_search() {
    let key = Some(encrypt_api_key("master", "sk-1"));
    let r = begin_stream(&Some(s("alice")), &s("alice"), &s("anthropic"), &key, "master", Some(true)).unwrap();
    assert_eq!(r.client.provider, Provider::Anthropic);
    assert_eq!(r.client.api_key, "sk-1");
    assert!(r.web_search);
    let r = begin_stream(&Some(s("alice")), &s("alice"), &s("openai"), &key, "master", Some(true)).unwrap();
    assert!(!r.web_search);
}

#[test]
fn vault_round_trip_hides_the_key() {
    let c = encrypt_api_key("master", "sk-secret");
    assert_ne!(c, "sk-secret");
    assert_eq!(encrypt_api_key("master", "sk-secret"), c);
    assert_eq!(decrypt_api_key("master", &c).unwrap(), "sk-secret");
    assert!(matches!(decrypt_api_key("other", &c), Err(AppError::InternalServerError)));
}
