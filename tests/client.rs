use sayings_core::config::{Backend, StorageType};
use sayings_core::models::{CacheKey, Saying, SayingSource};
use sayings_core::openrouter::{
    chat_response_from_choices, check_api_key, completions_url, first_choice, resolve_model,
};

#[test]
fn model_falls_back() {
    assert_eq!(resolve_model(Some("m".to_string()), "c"), "m");
    assert_eq!(resolve_model(None, "c"), "c");
    assert_eq!(resolve_model(None, ""), "openai/gpt-3.5-turbo");
}

#[test]
fn url_and_key() {
    assert_eq!(completions_url("https://openrouter.ai/api/v1"), "https://openrouter.ai/api/v1/chat/completions");
    assert!(check_api_key("SECRET-REDACTED").is_none());
    assert_eq!(
        check_api_key("").unwrap(),
        "OpenRouter API key is not configured. Please add it to your .env file."
    );
}

#[test]
fn reading_choices() {
    assert_eq!(first_choice(&vec!["a".to_string(), "b".to_string()]).unwrap(), "a");
    assert_eq!(first_choice(&vec![]).unwrap_err(), "OpenRouter response contained no choices");
    let ok = chat_response_from_choices(&vec!["hi".to_string()]);
    assert_eq!(ok.content.as_deref(), Some("hi"));
    assert!(ok.error.is_none());
    let bad = chat_response_from_choices(&vec!["".to_string()]);
    assert!(bad.content.is_none());
    assert_eq!(bad.error.as_deref(), Some("Received an invalid response from OpenRouter."));
    assert!(chat_response_from_choices(&vec![]).content.is_none());
}

#[test]
fn generated_saying_has_no_preset() {
    let s = Saying::generated("id".to_string(), "c".to_string(), "p".to_string(), 9);
    assert!(matches!(s.source, SayingSource::LLM));
    assert!(s.preset_id.is_none());
    assert_eq!(s.created_at, 9);
}

#[test]
fn source_labels() {
    assert_eq!(SayingSource::LLM.to_string(), "llm");
    assert_eq!(SayingSource::Cache.to_string(), "cache");
    assert_eq!(SayingSource::Database.to_string(), "database");
}

#[test]
fn cache_keys_compare_exactly() {
    let a = CacheKey::new(Some("x".to_string()), "p".to_string());
    let b = CacheKey::new(Some("x".to_string()), "p".to_string());
    let c = CacheKey::new(None, "p".to_string());
    let d = CacheKey::new(Some("x".to_string()), "P".to_string());
    assert!(a == b);
    assert!(a != c);
    assert!(a != d);
    let s = Saying::generated("i".to_string(), "c".to_string(), "p".to_string(), 0).with_preset(Some("x".to_string()));
    assert!(CacheKey::from_saying(&s) == a);
}

#[test]
fn storage_kinds() {
    assert!(StorageType::from_name("sqlite") == StorageType::SQLite);
    assert!(StorageType::from_name("redis") == StorageType::Redis);
    assert!(StorageType::from_name("sled") == StorageType::Sled);
    assert!(StorageType::from_name("memory") == StorageType::Memory);
    assert!(StorageType::from_name("other") == StorageType::Memory);
    assert!(StorageType::Sled.backend() == Backend::Sled);
    assert!(StorageType::Redis.backend() == Backend::Memory);
    assert!(StorageType::SQLite.backend() == Backend::Memory);
    assert!(StorageType::Memory.backend() == Backend::Memory);
}
