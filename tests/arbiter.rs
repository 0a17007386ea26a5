use sayings_core::arbiter::{
    finish_generation, in_cooldown, in_cooldown_at, is_user_allowed, plan_generation, plan_generation_at, reuse_or_generate, reuse_or_generate_with,
    requested_language, requested_limit, requested_user, serve_cooldown, serve_cooldown_with,
    system_prompt_for_language, user_status_at, ApiError, GenerationPlan, SayingRequest, TEST_USER_ID,
};
use sayings_core::config::RateLimitConfig;
use sayings_core::languages::get_translation_prompt;
use sayings_core::models::{Saying, SayingSource};
use sayings_core::preset::{Preset, Presets};
use sayings_core::rate_limiter::RateLimiter;
use sayings_core::storage::MemoryStorage;

fn preset(id: &str, prompts: &[&str]) -> Preset {
    Preset {
        id: id.to_string(),
        name: id.to_string(),
        description: String::new(),
        tags: vec![],
        button_text: String::new(),
        loading_text: String::new(),
        instruction_text: String::new(),
        system_prompt: format!("be {}", id),
        user_prompts: prompts.iter().map(|p| p.to_string()).collect(),
    }
}

fn catalog() -> Presets {
    Presets::from_presets(vec![preset("oracle", &["o1", "o2"]), preset("sage", &["s1"])]).unwrap()
}

fn limiter(max: u32) -> RateLimiter {
    RateLimiter::new(RateLimitConfig { max_requests: max, window_seconds: 3600 })
}

fn request(prompt: Option<&str>, preset_id: Option<&str>) -> SayingRequest {
    SayingRequest {
        prompt: prompt.map(|p| p.to_string()),
        preset_id: preset_id.map(|p| p.to_string()),
        language_id: None,
    }
}

fn saying(content: &str, at: i64, source: SayingSource) -> Saying {
    Saying {
        id: format!("id-{}", content),
        content: content.to_string(),
        prompt: "p".to_string(),
        created_at: at,
        source,
        preset_id: None,
    }
}

/// One request through the decision procedure, with a generator that
/// answers `answer`. `store_result` says whether the answer is recorded.
fn handle_request(
    limiter: &mut RateLimiter,
    presets: &mut Presets,
    store: &mut MemoryStorage,
    user: &str,
    req: &SayingRequest,
    store_result: bool,
) -> Result<Saying, ApiError> {
    if in_cooldown(limiter, user) {
        let last = store.get_last_saying(user);
        let sample = if last.is_none() { store.get_any_cached_sayings(5) } else { Vec::new() };
        return serve_cooldown(last, sample);
    }
    let plan = plan_generation(limiter, presets, user, req, "en", false)?;
    let hit = store.find_cached_saying(&plan.user_prompt, plan.preset_id.as_deref());
    if let Some(reused) = reuse_or_generate(hit) {
        if store_result {
            store.save_saying(user, reused.clone());
        }
        return Ok(reused);
    }
    let generated = Saying::generated(
        "generated-id".to_string(),
        format!("answer to {}", plan.user_prompt),
        plan.user_prompt.clone(),
        chrono::Utc::now().timestamp_millis(),
    );
    let result = finish_generation(Ok(generated), plan.preset_id.clone())?;
    if store_result {
        store.save_saying(user, result.clone());
    }
    Ok(result)
}

#[test]
fn second_request_in_exhausted_window_is_rate_limited() {
    let mut l = limiter(1);
    let mut p = catalog();
    let mut store = MemoryStorage::new();
    let req = request(None, None);
    let first = handle_request(&mut l, &mut p, &mut store, "user", &req, false).unwrap();
    assert!(matches!(first.source, SayingSource::LLM));
    assert!(first.preset_id.is_some());
    let second = handle_request(&mut l, &mut p, &mut store, "user", &req, false);
    assert!(matches!(second, Err(ApiError::RateLimited(_))));
}

#[test]
fn cooldown_serves_last_result_as_cached() {
    let mut l = limiter(1);
    let mut p = catalog();
    let mut store = MemoryStorage::new();
    let req = request(Some("hello"), None);
    let first = handle_request(&mut l, &mut p, &mut store, "user", &req, true).unwrap();
    let second = handle_request(&mut l, &mut p, &mut store, "user", &req, true).unwrap();
    assert_eq!(second.id, first.id);
    assert!(matches!(second.source, SayingSource::Cache));
}

#[test]
fn cooldown_falls_back_to_any_cached() {
    let sample = vec![saying("a", 1, SayingSource::Database), saying("b", 2, SayingSource::LLM)];
    let r = serve_cooldown_with(None, sample, 3).unwrap();
    assert_eq!(r.content, "b");
    assert!(matches!(r.source, SayingSource::Cache));
    let last = serve_cooldown_with(Some(saying("mine", 0, SayingSource::LLM)), vec![], 0).unwrap();
    assert_eq!(last.content, "mine");
    assert!(matches!(last.source, SayingSource::Cache));
    assert!(matches!(serve_cooldown_with(None, vec![], 0), Err(ApiError::RateLimited(_))));
    let any = serve_cooldown(None, vec![saying("only", 1, SayingSource::Cache)]).unwrap();
    assert_eq!(any.content, "only");
}

#[test]
fn free_prompt_uses_generic_system_prompt() {
    let mut l = limiter(2);
    let mut p = catalog();
    let plan: GenerationPlan =
        plan_generation_at(&mut l, &mut p, "u", &request(Some("hi"), Some("sage")), "en", 0, 0, 0, false).unwrap();
    assert_eq!(plan.system_prompt, "You are a helpful assistant.");
    assert_eq!(plan.user_prompt, "hi");
    assert!(plan.preset_id.is_none());
    assert_eq!(l.get_limit_info("u").unwrap().remaining_requests, 1);
}

#[test]
fn explicit_preset_is_used() {
    let mut l = limiter(2);
    let mut p = catalog();
    let plan = plan_generation_at(&mut l, &mut p, "u", &request(None, Some("oracle")), "en", 0, 0, 1, false).unwrap();
    assert_eq!(plan.system_prompt, "be oracle");
    assert_eq!(plan.user_prompt, "o2");
    assert_eq!(plan.preset_id.as_deref(), Some("oracle"));
}

#[test]
fn unknown_preset_is_bad_request() {
    let mut l = limiter(2);
    let mut p = catalog();
    let r = plan_generation_at(&mut l, &mut p, "u", &request(None, Some("nope")), "en", 0, 0, 0, false);
    assert!(matches!(r, Err(ApiError::BadRequest(_))));
    assert!(l.get_limit_info("u").is_none());
}

#[test]
fn pinned_preset_opens_window_first() {
    let mut l = limiter(3);
    let mut p = catalog();
    let plan = plan_generation_at(&mut l, &mut p, "u", &request(None, None), "en", 1_000, 1, 0, false).unwrap();
    assert_eq!(plan.system_prompt, "be sage");
    assert_eq!(plan.user_prompt, "s1");
    let info = l.get_limit_info("u").unwrap();
    assert_eq!(info.remaining_requests, 2);
    assert_eq!(info.reset_at, 1_000 + 3_600_000);
    let again = plan_generation_at(&mut l, &mut p, "u", &request(None, None), "en", 2_000, 0, 0, false).unwrap();
    assert_eq!(again.preset_id.as_deref(), Some("sage"));
}

#[test]
fn exhausted_quota_refuses_plan() {
    let mut l = limiter(1);
    let mut p = catalog();
    assert!(plan_generation_at(&mut l, &mut p, "u", &request(Some("x"), None), "en", 0, 0, 0, false).is_ok());
    let r = plan_generation_at(&mut l, &mut p, "u", &request(Some("x"), None), "en", 1, 0, 0, false);
    assert!(matches!(r, Err(ApiError::RateLimited(_))));
}

#[test]
fn language_directive_is_appended() {
    let mut l = limiter(2);
    let mut p = catalog();
    let plan = plan_generation_at(&mut l, &mut p, "u", &request(Some("hi"), None), "fr", 0, 0, 0, false).unwrap();
    let expected = format!("You are a helpful assistant.\n\n{}", get_translation_prompt("fr"));
    assert_eq!(plan.system_prompt, expected);
    assert_eq!(system_prompt_for_language("s".to_string(), "en"), "s");
}

#[test]
fn test_user_is_refused_in_release_only() {
    assert!(is_user_allowed(TEST_USER_ID, false).is_ok());
    assert!(matches!(is_user_allowed(TEST_USER_ID, true), Err(ApiError::AccessDenied(_))));
    assert!(is_user_allowed("someone", true).is_ok());
    let mut l = limiter(2);
    let mut p = catalog();
    let r = plan_generation_at(&mut l, &mut p, TEST_USER_ID, &request(Some("x"), None), "en", 0, 0, 0, true);
    assert!(matches!(r, Err(ApiError::AccessDenied(_))));
}

#[test]
fn generator_failure_passes_message() {
    let r = finish_generation(Err("upstream down".to_string()), None);
    match r {
        Err(ApiError::OpenRouterError(m)) => assert_eq!(m, "upstream down"),
        _ => panic!("expected an upstream error"),
    }
    let ok = finish_generation(Ok(saying("x", 1, SayingSource::Cache)), Some("sage".to_string())).unwrap();
    assert!(matches!(ok.source, SayingSource::LLM));
    assert_eq!(ok.preset_id.as_deref(), Some("sage"));
}

#[test]
fn errors_map_to_statuses() {
    assert_eq!(ApiError::AccessDenied("m".to_string()).status_code(), 403);
    assert_eq!(ApiError::RateLimited("m".to_string()).status_code(), 429);
    assert_eq!(ApiError::NotFound("m".to_string()).status_code(), 404);
    assert_eq!(ApiError::BadRequest("m".to_string()).status_code(), 400);
    assert_eq!(ApiError::InternalError("m".to_string()).status_code(), 500);
    assert_eq!(ApiError::OpenRouterError("m".to_string()).status_code(), 500);
    assert_eq!(ApiError::RateLimited("slow down".to_string()).to_string(), "Rate limit exceeded: slow down");
    assert_eq!(ApiError::NotFound("x".to_string()).message(), "x");
}

#[test]
fn request_defaults() {
    assert_eq!(requested_user(None), "default_user");
    assert_eq!(requested_user(Some("a".to_string())), "a");
    assert_eq!(requested_language(None, None), "en");
    assert_eq!(requested_language(None, Some("de".to_string())), "de");
    assert_eq!(requested_language(Some("fr".to_string()), Some("de".to_string())), "fr");
    assert_eq!(requested_limit(None), 10);
    assert_eq!(requested_limit(Some(3)), 3);
}

#[test]
fn status_of_new_and_known_users() {
    let mut l = limiter(2);
    let mut p = catalog();
    let fresh = user_status_at(&l, &mut p, "u", None, 0, 1, false).unwrap();
    assert!(fresh.can_query);
    assert_eq!(fresh.remaining_requests, 2);
    assert!(fresh.reset_at.is_none());
    assert_eq!(fresh.selected_preset.unwrap().id, "oracle");
    assert!(l.check_at("u", 0));
    let known = user_status_at(&l, &mut p, "u", Some(saying("last", 0, SayingSource::LLM)), 1, 1, false).unwrap();
    assert!(known.can_query);
    assert_eq!(known.remaining_requests, 1);
    assert_eq!(known.reset_at, Some(3_600_000));
    assert_eq!(known.last_saying.unwrap().content, "last");
    assert_eq!(known.selected_preset.unwrap().id, "sage");
    assert!(l.check_at("u", 2));
    let spent = user_status_at(&l, &mut p, "u", None, 3, 0, false).unwrap();
    assert!(!spent.can_query);
    assert!(spent.selected_preset.is_none());
}

#[test]
fn cache_hit_is_reused_for_high_rolls_only() {
    let hit = saying("hit", 1, SayingSource::Cache);
    assert!(reuse_or_generate_with(Some(hit.clone()), 0).is_none());
    assert!(reuse_or_generate_with(Some(hit.clone()), 69).is_none());
    assert_eq!(reuse_or_generate_with(Some(hit.clone()), 70).unwrap().content, "hit");
    assert_eq!(reuse_or_generate_with(Some(hit.clone()), 99).unwrap().content, "hit");
    assert!(reuse_or_generate_with(Some(hit.clone()), 169).is_none());
    assert!(reuse_or_generate_with(None, 99).is_none());
    assert!(reuse_or_generate(None).is_none());
    for _ in 0..20 {
        if let Some(s) = reuse_or_generate(Some(hit.clone())) {
            assert_eq!(s.id, hit.id);
        }
    }
}

#[test]
fn cooldown_ends_with_the_window() {
    let mut l = limiter(1);
    let mut p = catalog();
    assert!(!in_cooldown_at(&l, "u", 0));
    assert!(l.check_at("u", 0));
    assert!(in_cooldown_at(&l, "u", 1));
    assert!(in_cooldown_at(&l, "u", 3_600_000));
    assert!(!in_cooldown_at(&l, "u", 3_600_001));
    let st = user_status_at(&l, &mut p, "u", None, 3_600_001, 0, false).unwrap();
    assert!(st.can_query);
    assert_eq!(st.remaining_requests, 1);
    assert!(st.selected_preset.is_some());
    let plan = plan_generation_at(&mut l, &mut p, "u", &request(Some("again"), None), "en", 3_600_001, 0, 0, false);
    assert!(plan.is_ok());
    assert_eq!(l.get_limit_info("u").unwrap().remaining_requests, 0);
}
