use backend::access::{authorize_chat, should_forward};
use backend::branch::{needs_title, plan_branches};
use backend::chats::{cascade_targets, messages_from, new_chat_fields, update_assignments};
use backend::conversation::{combine_prompts, prepare_conversation};
use backend::error::AppError;
use backend::keys::KeyTable;
use backend::records::{Chat, CreateChatPayload, Message, ParallelModelConfig, UpdateChatPayload};

fn s(x: &str) -> String {
    x.to_string()
}

fn msg(id: &str, role: &str, content: &str) -> Message {
    Message { id: s(id), chat_id: s("c1"), role: s(role), content: s(content), created_at: s("t") }
}

fn chat(title: &str) -> Chat {
    Chat {
        id: s("c1"),
        user_id: s("alice"),
        title: s(title),
        system_prompt: Some(s("be brief")),
        provider: s("openai"),
        model: s("gpt-4o"),
        pinned: false,
        is_branch: false,
        parent_chat_id: None,
        branch_point_message_id: None,
        created_at: s("t"),
    }
}

#[test]
fn owner_is_admitted() {
    assert!(authorize_chat(&Some(s("alice")), &s("alice")).is_ok());
}

#[test]
fn foreign_and_missing_chats_look_the_same() {
    assert!(matches!(authorize_chat(&Some(s("bob")), &s("alice")), Err(AppError::NotFound)));
    assert!(matches!(authorize_chat(&None, &s("alice")), Err(AppError::NotFound)));
}

#[test]
fn broadcast_goes_to_owner_only() {
    assert!(should_forward(&Some(s("alice")), &s("alice")));
    assert!(!should_forward(&Some(s("bob")), &s("alice")));
    assert!(!should_forward(&None, &s("alice")));
}

#[test]
fn conversation_with_two_active_prompts() {
    let history = vec![msg("1", "user", "hi"), msg("2", "assistant", "hello"), msg("3", "user", "how?")];
    let prompts = vec![s("P1"), s("P2")];
    let c = prepare_conversation(&history, &prompts, &Some(s("stored")));
    assert_eq!(c.len(), 4);
    assert_eq!(c[0].role, "system");
    assert_eq!(c[0].content, "P1\n\n---\n\nP2");
    assert_eq!((c[1].role.as_str(), c[1].content.as_str()), ("user", "hi"));
    assert_eq!((c[2].role.as_str(), c[2].content.as_str()), ("assistant", "hello"));
    assert_eq!((c[3].role.as_str(), c[3].content.as_str()), ("user", "how?"));
}

#[test]
fn conversation_falls_back_to_stored_prompt() {
    let history = vec![msg("1", "user", "hi")];
    let c = prepare_conversation(&history, &vec![], &Some(s("stored")));
    assert_eq!(c.len(), 2);
    assert_eq!(c[0].content, "stored");
    let c = prepare_conversation(&history, &vec![], &None);
    assert_eq!(c.len(), 1);
}

#[test]
fn conversation_keeps_last_ten_messages() {
    let history: Vec<Message> = (0..13).map(|i| msg(&i.to_string(), "user", &format!("m{}", i))).collect();
    let c = prepare_conversation(&history, &vec![], &None);
    assert_eq!(c.len(), 10);
    assert_eq!(c[0].content, "m3");
    assert_eq!(c[9].content, "m12");
}

#[test]
fn combined_prompts() {
    assert_eq!(combine_prompts(&vec![]), None);
    assert_eq!(combine_prompts(&vec![s("a")]), Some(s("a")));
    assert_eq!(combine_prompts(&vec![s("a"), s("b"), s("c")]), Some(s("a\n\n---\n\nb\n\n---\n\nc")));
}

#[test]
fn key_upsert_keeps_one_row_with_second_value() {
    let mut t = KeyTable::new();
    t.add_key(&s("alice"), &s("openai"), &s("sk-first"), "master-key", s("t1"));
    t.add_key(&s("alice"), &s("openai"), &s("sk-second"), "master-key", s("t2"));
    assert_eq!(t.len(), 1);
    assert_eq!(t.decrypted_key(&s("alice"), &s("openai"), "master-key").unwrap(), "sk-second");
}

#[test]
fn keys_are_per_user_and_provider() {
    let mut t = KeyTable::new();
    t.add_key(&s("alice"), &s("openai"), &s("a1"), "m", s("t"));
    t.add_key(&s("alice"), &s("gemini"), &s("a2"), "m", s("t"));
    t.add_key(&s("bob"), &s("openai"), &s("b1"), "m", s("t"));
    assert_eq!(t.len(), 3);
    assert_eq!(t.decrypted_key(&s("bob"), &s("openai"), "m").unwrap(), "b1");
    assert!(t.delete_key(&s("alice"), &s("openai")).is_ok());
    assert!(matches!(t.delete_key(&s("alice"), &s("openai")), Err(AppError::NotFound)));
    assert_eq!(t.len(), 2);
    match t.decrypted_key(&s("alice"), &s("openai"), "m") {
        Err(AppError::BadRequest(m)) => assert_eq!(m, "api key for provider 'openai' not found."),
        _ => panic!("expected a bad request"),
    }
}

#[test]
fn wrong_master_key_is_internal_fault() {
    let mut t = KeyTable::new();
    t.add_key(&s("alice"), &s("openai"), &s("sk"), "right", s("t"));
    assert!(matches!(t.decrypted_key(&s("alice"), &s("openai"), "wrong"), Err(AppError::InternalServerError)));
}

#[test]
fn two_models_make_two_branches() {
    let parent = chat("Rust help");
    let user = msg("u9", "user", "compare please");
    let history = vec![msg("1", "user", "hi"), msg("2", "assistant", "hello")];
    let models = vec![
        ParallelModelConfig { provider: s("openai"), model: s("gpt-4o") },
        ParallelModelConfig { provider: s("anthropic"), model: s("sonnet") },
    ];
    let plans = plan_branches(&parent, &user, &history, &models);
    assert_eq!(plans.len(), 2);
    assert_eq!(plans[0].title, "Rust help (gpt-4o)");
    assert_eq!(plans[1].title, "Rust help (sonnet)");
    assert_ne!(plans[0].title, plans[1].title);
    for p in plans.iter() {
        assert_eq!(p.messages.len(), 3);
        assert_eq!(p.messages[0].content, "hi");
        assert_eq!(p.messages[1].content, "hello");
        assert_eq!((p.messages[2].role.as_str(), p.messages[2].content.as_str()), ("user", "compare please"));
        assert_eq!(p.parent_chat_id, "c1");
        assert_eq!(p.branch_point_message_id, "u9");
        assert_eq!(p.system_prompt, Some(s("be brief")));
        assert_eq!(p.user_id, "alice");
        assert!(p.is_branch);
        assert!(!p.pinned);
    }
    assert_eq!(plans[1].provider, "anthropic");
}

#[test]
fn placeholder_parent_title_is_generated_for_branches() {
    let parent = chat("New Chat");
    let user = msg("u1", "user", "Hi");
    let models = vec![ParallelModelConfig { provider: s("xai"), model: s("grok-2") }];
    let plans = plan_branches(&parent, &user, &vec![], &models);
    assert_eq!(plans[0].title, "Hi (grok-2)");
}

#[test]
fn retitle_only_on_first_user_message() {
    assert!(needs_title(&s("New Chat"), 1));
    assert!(needs_title(&s("My New Chat 2"), 1));
    assert!(!needs_title(&s("New Chat"), 2));
    assert!(!needs_title(&s("Rust"), 1));
}

#[test]
fn new_chat_defaults() {
    let p = CreateChatPayload {
        title: s("t"),
        system_prompt: None,
        provider: None,
        model: None,
        is_branch: None,
        parent_chat_id: None,
        branch_point_message_id: None,
    };
    let f = new_chat_fields(&p, &vec![s("A"), s("B")]);
    assert_eq!(f.system_prompt, Some(s("A\n\n---\n\nB")));
    assert_eq!(f.provider, "openai");
    assert_eq!(f.model, "gpt-4o");
    assert!(!f.is_branch);
    let f = new_chat_fields(&p, &vec![]);
    assert_eq!(f.system_prompt, None);
}

#[test]
fn chat_update_columns() {
    let p = UpdateChatPayload { title: Some(s("x")), system_prompt: None, provider: None, model: Some(s("m")), pinned: Some(true) };
    let v = update_assignments(&p).unwrap();
    assert_eq!(v, vec![(s("title"), s("x")), (s("model"), s("m")), (s("pinned"), s("1"))]);
    let empty = UpdateChatPayload { title: None, system_prompt: None, provider: None, model: None, pinned: None };
    match update_assignments(&empty) {
        Err(AppError::BadRequest(m)) => assert_eq!(m, "No fields to update"),
        _ => panic!("expected a bad request"),
    }
}

#[test]
fn deleting_a_chat_takes_its_branches_of_branches() {
    let links = vec![
        (s("root"), None),
        (s("b1"), Some(s("root"))),
        (s("b2"), Some(s("b1"))),
        (s("b3"), Some(s("b2"))),
        (s("other"), None),
        (s("o1"), Some(s("other"))),
        (s("orphan"), Some(s("gone"))),
    ];
    let mut ids = cascade_targets(&s("root"), &links);
    assert_eq!(ids[0], "root");
    ids.sort();
    assert_eq!(ids, vec![s("b1"), s("b2"), s("b3"), s("root")]);
    assert_eq!(cascade_targets(&s("b2"), &links), vec![s("b2"), s("b3")]);
    assert_eq!(cascade_targets(&s("x"), &vec![]), vec![s("x")]);
}

#[test]
fn messages_from_a_point_in_the_chat() {
    let history = vec![msg("a", "user", "1"), msg("b", "assistant", "2"), msg("c", "user", "3"), msg("d", "assistant", "4")];
    assert_eq!(messages_from(&history, &s("b"), true).unwrap(), vec![s("b"), s("c"), s("d")]);
    assert_eq!(messages_from(&history, &s("b"), false).unwrap(), vec![s("c"), s("d")]);
    assert_eq!(messages_from(&history, &s("d"), false).unwrap(), Vec::<String>::new());
    assert!(matches!(messages_from(&history, &s("z"), true), Err(AppError::NotFound)));
}
