use sayings_core::models::{Saying, SayingSource};
use sayings_core::storage::MemoryStorage;

fn saying(content: &str, prompt: &str, preset: Option<&str>, at: i64, source: SayingSource) -> Saying {
    Saying {
        id: uuid::Uuid::new_v4().to_string(),
        content: content.to_string(),
        prompt: prompt.to_string(),
        created_at: at,
        source,
        preset_id: preset.map(|p| p.to_string()),
    }
}

#[test]
fn test_memory_storage_find_cached_saying() {
    let mut storage = MemoryStorage::new();

    let user_id = "test_user";
    let prompt = "test prompt";
    let preset_id = Some("test_preset".to_string());

    let llm_saying = Saying {
        id: uuid::Uuid::new_v4().to_string(),
        content: "LLM generated content".to_string(),
        prompt: prompt.to_string(),
        created_at: chrono::Utc::now().timestamp_millis(),
        source: SayingSource::LLM,
        preset_id: preset_id.clone(),
    };

    let cached_saying = Saying {
        id: uuid::Uuid::new_v4().to_string(),
        content: "Cached content".to_string(),
        prompt: prompt.to_string(),
        created_at: chrono::Utc::now().timestamp_millis(),
        source: SayingSource::Cache,
        preset_id: preset_id.clone(),
    };

    storage.save_saying(user_id, llm_saying.clone());
    storage.save_saying(user_id, cached_saying.clone());

    let result = storage.find_cached_saying(prompt, preset_id.as_deref());

    assert!(result.is_some());
    let found = result.unwrap();
    assert_eq!(found.content, cached_saying.content);
    assert!(matches!(found.source, SayingSource::Cache));

    let no_result = storage.find_cached_saying("nonexistent", preset_id.as_deref());
    assert!(no_result.is_none());
}

#[test]
fn recorded_generated_result_is_not_found() {
    let mut storage = MemoryStorage::new();
    storage.save_saying("u", saying("fresh", "P", Some("X"), 100, SayingSource::LLM));
    assert!(storage.find_cached_saying("P", Some("X")).is_none());
}

#[test]
fn recorded_cached_result_is_found() {
    let mut storage = MemoryStorage::new();
    let s = saying("kept", "P", Some("X"), 100, SayingSource::Cache);
    storage.save_saying("u", s.clone());
    let found = storage.find_cached_saying("P", Some("X")).unwrap();
    assert_eq!(found.id, s.id);
    assert_eq!(found.content, "kept");
}

#[test]
fn recorded_database_result_is_found_without_preset() {
    let mut storage = MemoryStorage::new();
    storage.save_saying("u", saying("stored", "free prompt", None, 5, SayingSource::Database));
    let found = storage.find_cached_saying("free prompt", None).unwrap();
    assert_eq!(found.content, "stored");
    assert!(storage.find_cached_saying("free prompt", Some("X")).is_none());
}

#[test]
fn unseen_key_is_absent() {
    let mut storage = MemoryStorage::new();
    assert!(storage.find_cached_saying("P", Some("X")).is_none());
    storage.save_saying("u", saying("a", "Q", Some("X"), 1, SayingSource::Cache));
    assert!(storage.find_cached_saying("P", Some("X")).is_none());
    assert!(storage.find_cached_saying("Q", None).is_none());
}

#[test]
fn global_cache_matches_preset_exactly() {
    let mut storage = MemoryStorage::new();
    storage.save_saying("seed", saying("cached answer", "P", Some("X"), 7, SayingSource::Cache));
    let hit = storage.find_cached_saying("P", Some("X"));
    assert_eq!(hit.unwrap().content, "cached answer");
    assert!(storage.find_cached_saying("P", Some("Y")).is_none());
}

#[test]
fn global_cache_keeps_latest_entry_per_key() {
    let mut storage = MemoryStorage::new();
    storage.save_saying("a", saying("first", "P", Some("X"), 1, SayingSource::Cache));
    storage.save_saying("b", saying("second", "P", Some("X"), 2, SayingSource::Database));
    assert_eq!(storage.find_cached_saying("P", Some("X")).unwrap().content, "second");
}

#[test]
fn history_is_newest_first_and_limited() {
    let mut storage = MemoryStorage::new();
    storage.save_saying("u", saying("ten", "p1", None, 10, SayingSource::LLM));
    storage.save_saying("u", saying("thirty", "p2", None, 30, SayingSource::LLM));
    storage.save_saying("u", saying("twenty", "p3", None, 20, SayingSource::LLM));
    let page = storage.get_sayings("u", 2);
    assert_eq!(page.len(), 2);
    assert_eq!(page[0].content, "thirty");
    assert_eq!(page[1].content, "twenty");
    let all = storage.get_sayings("u", 10);
    let times: Vec<i64> = all.iter().map(|s| s.created_at).collect();
    assert_eq!(times, vec![30, 20, 10]);
    assert!(storage.get_sayings("u", 0).is_empty());
    assert!(storage.get_sayings("nobody", 5).is_empty());
}

#[test]
fn equal_times_keep_recording_order() {
    let mut storage = MemoryStorage::new();
    storage.save_saying("u", saying("earlier", "p", None, 10, SayingSource::LLM));
    storage.save_saying("u", saying("later", "p", None, 10, SayingSource::LLM));
    let all = storage.get_sayings("u", 10);
    assert_eq!(all[0].content, "earlier");
    assert_eq!(all[1].content, "later");
}

#[test]
fn last_saying_is_newest() {
    let mut storage = MemoryStorage::new();
    assert!(storage.get_last_saying("u").is_none());
    storage.save_saying("u", saying("old", "p", None, 1, SayingSource::LLM));
    storage.save_saying("u", saying("new", "p", None, 2, SayingSource::LLM));
    storage.save_saying("v", saying("other", "p", None, 3, SayingSource::LLM));
    assert_eq!(storage.get_last_saying("u").unwrap().content, "new");
    assert_eq!(storage.get_last_saying("v").unwrap().content, "other");
}

#[test]
fn any_cached_on_empty_store_is_empty() {
    let storage = MemoryStorage::new();
    assert!(storage.get_any_cached_sayings(5).is_empty());
}

#[test]
fn any_cached_prefers_vetted_and_falls_back_to_generated() {
    let mut storage = MemoryStorage::new();
    storage.save_saying("u", saying("gen", "g", None, 50, SayingSource::LLM));
    storage.save_saying("u", saying("vetted", "v", None, 10, SayingSource::Cache));
    let two = storage.get_any_cached_sayings(2);
    assert_eq!(two.len(), 2);
    assert_eq!(two[0].content, "gen");
    assert_eq!(two[1].content, "vetted");
    let one = storage.get_any_cached_sayings(1);
    assert_eq!(one.len(), 1);
    assert_eq!(one[0].content, "vetted");
    assert!(storage.get_any_cached_sayings(0).is_empty());
}

#[test]
fn any_cached_deduplicates_by_key() {
    let mut storage = MemoryStorage::new();
    storage.save_saying("a", saying("one", "P", Some("X"), 1, SayingSource::Cache));
    storage.save_saying("b", saying("two", "P", Some("X"), 2, SayingSource::LLM));
    storage.save_saying("b", saying("three", "Q", Some("X"), 3, SayingSource::LLM));
    let all = storage.get_any_cached_sayings(10);
    let contents: Vec<&str> = all.iter().map(|s| s.content.as_str()).collect();
    assert_eq!(contents, vec!["three", "one"]);
}

#[test]
fn any_cached_short_sample_covers_every_key() {
    let mut storage = MemoryStorage::new();
    storage.save_saying("a", saying("cached", "P", Some("X"), 1, SayingSource::Cache));
    storage.save_saying("a", saying("gen same key", "P", Some("X"), 9, SayingSource::LLM));
    storage.save_saying("b", saying("gen other", "Q", None, 5, SayingSource::LLM));
    storage.save_saying("b", saying("vetted", "R", None, 3, SayingSource::Database));
    let all = storage.get_any_cached_sayings(10);
    let contents: Vec<&str> = all.iter().map(|s| s.content.as_str()).collect();
    assert_eq!(contents, vec!["gen other", "vetted", "cached"]);
}

#[test]
fn any_cached_keeps_vetted_ahead_of_newer_generated() {
    let mut storage = MemoryStorage::new();
    storage.save_saying("a", saying("old vetted", "P", None, 1, SayingSource::Cache));
    storage.save_saying("b", saying("new generated", "Q", None, 100, SayingSource::LLM));
    let one = storage.get_any_cached_sayings(1);
    assert_eq!(one.len(), 1);
    assert_eq!(one[0].content, "old vetted");
}

#[test]
fn any_cached_keeps_cache_entries_ahead_of_history() {
    let mut storage = MemoryStorage::new();
    storage.save_saying("a", saying("cached", "P", None, 1, SayingSource::Cache));
    storage.restore_history("b", saying("history only", "Q", None, 100, SayingSource::Database));
    let one = storage.get_any_cached_sayings(1);
    assert_eq!(one[0].content, "cached");
    let two = storage.get_any_cached_sayings(2);
    let contents: Vec<&str> = two.iter().map(|s| s.content.as_str()).collect();
    assert_eq!(contents, vec!["history only", "cached"]);
}
