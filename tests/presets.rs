use sayings_core::preset::{Preset, PresetError, Presets};

fn preset(id: &str, prompts: &[&str]) -> Preset {
    Preset {
        id: id.to_string(),
        name: format!("{} name", id),
        description: String::new(),
        tags: vec!["tag".to_string()],
        button_text: "Ask".to_string(),
        loading_text: "Thinking".to_string(),
        instruction_text: "Press".to_string(),
        system_prompt: format!("system of {}", id),
        user_prompts: prompts.iter().map(|p| p.to_string()).collect(),
    }
}

fn catalog() -> Presets {
    Presets::from_presets(vec![preset("alpha", &["a1", "a2"]), preset("beta", &["b1"])]).unwrap()
}

#[test]
fn invalid_entry_is_refused() {
    let r = Presets::from_presets(vec![preset("alpha", &["a1"]), preset("beta", &[])]);
    assert!(matches!(r, Err(PresetError::InvalidPreset)));
    let r = Presets::from_presets(vec![preset("", &["a1"])]);
    assert!(matches!(r, Err(PresetError::InvalidPreset)));
}

#[test]
fn pin_is_reused_before_expiry() {
    let mut p = catalog();
    let first = p.get_or_select_preset_at("u", 1_000, 0, 0).unwrap();
    assert_eq!(first.id, "alpha");
    let second = p.get_or_select_preset_at("u", 5_000, 999, 1).unwrap();
    assert_eq!(second.id, "alpha");
    assert_eq!(second.user_prompts, first.user_prompts);
}

#[test]
fn expired_pin_is_redrawn() {
    let mut p = catalog();
    let first = p.get_or_select_preset_at("u", 1_000, 0, 0).unwrap();
    assert_eq!(first.id, "alpha");
    let again = p.get_or_select_preset_at("u", 9_000, 1_000, 1).unwrap();
    assert_eq!(again.id, "beta");
    let kept = p.get_or_select_preset_at("u", 20_000, 8_999, 0).unwrap();
    assert_eq!(kept.id, "beta");
}

#[test]
fn pins_are_per_user() {
    let mut p = catalog();
    assert_eq!(p.get_or_select_preset_at("u", 1_000, 0, 0).unwrap().id, "alpha");
    assert_eq!(p.get_or_select_preset_at("v", 1_000, 0, 3).unwrap().id, "beta");
    assert_eq!(p.get_or_select_preset_at("u", 1_000, 5, 3).unwrap().id, "alpha");
}

#[test]
fn selection_on_empty_catalog_fails() {
    let mut p = Presets::from_presets(vec![]).unwrap();
    assert!(matches!(p.get_or_select_preset_at("u", 10, 0, 0), Err(PresetError::EmptyCatalog)));
    assert!(matches!(p.random_preset(), Err(PresetError::EmptyCatalog)));
    assert!(matches!(p.get_default_preset(), Err(PresetError::EmptyCatalog)));
    assert!(matches!(p.preset_for_draw(4), Err(PresetError::EmptyCatalog)));
}

#[test]
fn prompt_for_draw_wraps_around() {
    let p = catalog();
    assert_eq!(p.user_prompt_for_draw("alpha", 0).unwrap(), "a1");
    assert_eq!(p.user_prompt_for_draw("alpha", 3).unwrap(), "a2");
    assert_eq!(p.user_prompt_for_draw("beta", 7).unwrap(), "b1");
    assert!(matches!(p.user_prompt_for_draw("gamma", 0), Err(PresetError::NotFound)));
}

#[test]
fn random_draws_stay_in_catalog() {
    let p = catalog();
    for _ in 0..50 {
        let prompt = p.random_user_prompt("alpha").unwrap();
        assert!(prompt == "a1" || prompt == "a2");
        let chosen = p.random_preset().unwrap();
        assert!(chosen.id == "alpha" || chosen.id == "beta");
    }
    assert!(matches!(p.random_user_prompt("gamma"), Err(PresetError::NotFound)));
}

#[test]
fn lookup_by_id_and_listing() {
    let p = catalog();
    assert_eq!(p.get_preset_by_id("beta").unwrap().system_prompt, "system of beta");
    assert!(p.get_preset_by_id("gamma").is_none());
    let all = p.get_all_presets();
    assert_eq!(all.len(), 2);
    assert_eq!(all[0].id, "alpha");
    assert_eq!(all[1].id, "beta");
}

#[test]
fn default_prefers_oracle_then_first() {
    let p = catalog();
    assert_eq!(p.get_default_preset().unwrap().id, "alpha");
    let q = Presets::from_presets(vec![preset("alpha", &["a"]), preset("oracle", &["o"])]).unwrap();
    assert_eq!(q.get_default_preset().unwrap().id, "oracle");
}

#[test]
fn selection_with_clock_is_sticky() {
    let mut p = catalog();
    let far = chrono::Utc::now().timestamp_millis() + 3_600_000;
    let first = p.get_or_select_preset("u", far).unwrap();
    for _ in 0..10 {
        assert_eq!(p.get_or_select_preset("u", far).unwrap().id, first.id);
    }
}
