use sayings_core::languages::{get_all_languages, get_language_by_id, get_translation_prompt, DEFAULT_LANGUAGE_ID};

#[test]
fn thirteen_languages_english_first() {
    let all = get_all_languages();
    assert_eq!(all.len(), 13);
    assert_eq!(all[0].id, "en");
    assert_eq!(all[7].id, "zh-TW");
    assert_eq!(all[7].native_name, "正體中文");
    assert_eq!(all[12].name, "Hindi");
    assert_eq!(DEFAULT_LANGUAGE_ID, "en");
}

#[test]
fn lookup_falls_back_to_english() {
    assert_eq!(get_language_by_id("fr").name, "French");
    assert_eq!(get_language_by_id("ja").native_name, "日本語");
    assert_eq!(get_language_by_id("xx").id, "en");
    assert_eq!(get_language_by_id("").id, "en");
}

#[test]
fn english_needs_no_directive() {
    assert_eq!(get_translation_prompt("en"), "");
}

#[test]
fn directive_names_the_language() {
    let expected = "\nRegardless of the instructions above, you MUST format your responses as follows:\n\n1. First, provide your answer in English, enclosed in markdown blockquote format (> Your English response here)\n2. Then, provide the translated version in German (Deutsch) as regular text.\n\nYou MUST use this exact format for every response:\n\n> [English original answer here]\n\n[German translation here]\n\nDo not include any additional explanations or notes about the translation process.\nIf you're unsure about any specialized terms, use the most appropriate translation for the context.\n";
    assert_eq!(get_translation_prompt("de"), expected);
    assert!(get_translation_prompt("es").contains("Spanish (Español)"));
    assert!(get_translation_prompt("unknown").contains("English (English)"));
}
