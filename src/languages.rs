//! The supported output languages and the translation directive for each.

use vstd::prelude::*;
use crate::models::same_text;

verus! {

/// A supported output language.
#[derive(Debug)]
pub struct Language {
    pub id: String,
    pub name: String,
    pub native_name: String,
}

impl Clone for Language {
    fn clone(&self) -> (r: Self)
        ensures
            r == *self,
    {
        Language { id: self.id.clone(), name: self.name.clone(), native_name: self.native_name.clone() }
    }
}

/// The language answers are written in unless another is asked for.
pub const DEFAULT_LANGUAGE_ID: &'static str = "en";

/// A language as `(id, name, native name)`.
pub open spec fn language_view(l: Language) -> (Seq<char>, Seq<char>, Seq<char>) {
    (l.id@, l.name@, l.native_name@)
}

/// The supported languages, in presentation order; the first is the default.
pub open spec fn language_table() -> Seq<(Seq<char>, Seq<char>, Seq<char>)> {
    seq![
        ("en"@, "English"@, "English"@),
        ("es"@, "Spanish"@, "Español"@),
        ("fr"@, "French"@, "Français"@),
        ("de"@, "German"@, "Deutsch"@),
        ("it"@, "Italian"@, "Italiano"@),
        ("pt"@, "Portuguese"@, "Português"@),
        ("ru"@, "Russian"@, "Русский"@),
        ("zh-TW"@, "Traditional Chinese"@, "正體中文"@),
        ("zh-CN"@, "Simplified Chinese"@, "简体中文"@),
        ("ja"@, "Japanese"@, "日本語"@),
        ("ko"@, "Korean"@, "한국어"@),
        ("ar"@, "Arabic"@, "العربية"@),
        ("hi"@, "Hindi"@, "हिन्दी"@),
    ]
}

/// `i` is the first entry of the table with id `id`.
pub open spec fn first_language_with_id(i: int, id: Seq<char>) -> bool {
    0 <= i < language_table().len() && language_table()[i].0 == id && forall|j: int|
        0 <= j < i ==> language_table()[j].0 != id
}

/// The language with id `id`, or the default language for an unknown id.
pub open spec fn language_for(id: Seq<char>) -> (Seq<char>, Seq<char>, Seq<char>) {
    if exists|i: int| first_language_with_id(i, id) {
        language_table()[choose|i: int| first_language_with_id(i, id)]
    } else {
        language_table()[0]
    }
}

/// The directive that asks for an English answer followed by its
/// translation into `name` (`native`).
pub open spec fn translation_text(name: Seq<char>, native: Seq<char>) -> Seq<char> {
    "\nRegardless of the instructions above, you MUST format your responses as follows:\n\n1. First, provide your answer in English, enclosed in markdown blockquote format (> Your English response here)\n2. Then, provide the translated version in "@
        + name + " ("@ + native
        + ") as regular text.\n\nYou MUST use this exact format for every response:\n\n> [English original answer here]\n\n["@
        + name
        + " translation here]\n\nDo not include any additional explanations or notes about the translation process.\nIf you're unsure about any specialized terms, use the most appropriate translation for the context.\n"@
}

/// The directive for `language_id`: empty for English, otherwise the
/// translation directive for that language (English's for an unknown id).
pub open spec fn translation_prompt(language_id: Seq<char>) -> Seq<char> {
    if language_id == "en"@ {
        Seq::empty()
    } else {
        translation_text(language_for(language_id).1, language_for(language_id).2)
    }
}

fn language(id: &str, name: &str, native_name: &str) -> (r: Language)
    ensures
        language_view(r) == (id@, name@, native_name@),
{
    Language {
        id: String::from_str(id),
        name: String::from_str(name),
        native_name: String::from_str(native_name),
    }
}

/// Every supported language, in presentation order.
pub fn get_all_languages() -> (r: Vec<Language>)
    ensures
        r@.len() == language_table().len(),
        forall|i: int| 0 <= i < r@.len() ==> language_view(#[trigger] r@[i]) == language_table()[i],
{
    let mut v: Vec<Language> = Vec::new();
    v.push(language("en", "English", "English"));
    v.push(language("es", "Spanish", "Español"));
    v.push(language("fr", "French", "Français"));
    v.push(language("de", "German", "Deutsch"));
    v.push(language("it", "Italian", "Italiano"));
    v.push(language("pt", "Portuguese", "Português"));
    v.push(language("ru", "Russian", "Русский"));
    v.push(language("zh-TW", "Traditional Chinese", "正體中文"));
    v.push(language("zh-CN", "Simplified Chinese", "简体中文"));
    v.push(language("ja", "Japanese", "日本語"));
    v.push(language("ko", "Korean", "한국어"));
    v.push(language("ar", "Arabic", "العربية"));
    v.push(language("hi", "Hindi", "हिन्दी"));
    v
}

/// The language with id `id`; the default language for an unknown id.
pub fn get_language_by_id(id: &str) -> (r: Language)
    ensures
        language_view(r) == language_for(id@),
{
    let all = get_all_languages();
    let mut i: usize = 0;
    while i < all.len()
        invariant
            all@.len() == language_table().len(),
            forall|k: int| 0 <= k < all@.len() ==> language_view(#[trigger] all@[k]) == language_table()[k],
            0 <= i <= all@.len(),
            forall|j: int| 0 <= j < i ==> language_table()[j].0 != id@,
        decreases all@.len() - i,
    {
        assert(language_view(all@[i as int]) == language_table()[i as int]);
        if same_text(all[i].id.as_str(), id) {
            assert(first_language_with_id(i as int, id@));
            assert forall|k: int| first_language_with_id(k, id@) implies k == i by {
                if k > i {
                    assert(language_table()[i as int].0 == id@);
                }
            }
            return all[i].clone();
        }
        i = i + 1;
    }
    assert(language_view(all@[0]) == language_table()[0]);
    all[0].clone()
}

/// The instruction appended to the system prompt for answers in
/// `language_id`: empty for English.
pub fn get_translation_prompt(language_id: &str) -> (r: String)
    ensures
        r@ == translation_prompt(language_id@),
{
    if same_text(language_id, "en") {
        return String::new();
    }
    let language = get_language_by_id(language_id);
    String::from_str(
        "\nRegardless of the instructions above, you MUST format your responses as follows:\n\n1. First, provide your answer in English, enclosed in markdown blockquote format (> Your English response here)\n2. Then, provide the translated version in ",
    ).concat(language.name.as_str()).concat(" (").concat(language.native_name.as_str()).concat(
        ") as regular text.\n\nYou MUST use this exact format for every response:\n\n> [English original answer here]\n\n[",
    ).concat(language.name.as_str()).concat(
        " translation here]\n\nDo not include any additional explanations or notes about the translation process.\nIf you're unsure about any specialized terms, use the most appropriate translation for the context.\n",
    )
}

} // verus!
