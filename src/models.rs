//! The data model: generated results, their provenance, and cache keys.

use vstd::prelude::*;

verus! {

/// A point in time, in milliseconds since the Unix epoch (UTC).
pub type Millis = i64;

/// Where a result came from.
#[derive(Debug, Clone, Copy, PartialEq, Eq, Structural)]
pub enum SayingSource {
    /// Freshly produced by the generator.
    LLM,
    /// Served from a cache.
    Cache,
    /// Read back from durable storage.
    Database,
}

/// The wire label of a source.
pub open spec fn source_label(s: SayingSource) -> Seq<char> {
    match s {
        SayingSource::LLM => "llm"@,
        SayingSource::Cache => "cache"@,
        SayingSource::Database => "database"@,
    }
}

impl SayingSource {
    /// The lower-case label of this source: `llm`, `cache` or `database`.
    pub fn to_string(&self) -> (r: String)
        ensures
            r@ == source_label(*self),
    {
        match self {
            SayingSource::LLM => String::from_str("llm"),
            SayingSource::Cache => String::from_str("cache"),
            SayingSource::Database => String::from_str("database"),
        }
    }

    /// Whether this source is the generator itself.
    pub fn is_generated(&self) -> (r: bool)
        ensures
            r == (*self == SayingSource::LLM),
    {
        match self {
            SayingSource::LLM => true,
            _ => false,
        }
    }
}

/// One produced or cached answer.
#[derive(Debug)]
pub struct Saying {
    pub id: String,
    pub content: String,
    pub prompt: String,
    pub created_at: Millis,
    pub source: SayingSource,
    pub preset_id: Option<String>,
}

/// The view of an optional text.
pub open spec fn opt_text(o: Option<String>) -> Option<Seq<char>> {
    match o {
        Some(s) => Some(s@),
        None => None,
    }
}

/// The view of an optional borrowed text.
pub open spec fn opt_str(o: Option<&str>) -> Option<Seq<char>> {
    match o {
        Some(s) => Some(s@),
        None => None,
    }
}

/// The cache identity of a result: its preset and its exact prompt.
pub open spec fn key_of(s: Saying) -> (Option<Seq<char>>, Seq<char>) {
    (opt_text(s.preset_id), s.prompt@)
}

/// Whether a result answers `prompt` under `preset`.
pub open spec fn answers(s: Saying, prompt: Seq<char>, preset: Option<Seq<char>>) -> bool {
    key_of(s) == (preset, prompt)
}

/// Exact text equality of two borrowed strings.
pub fn same_text(a: &str, b: &str) -> (r: bool)
    ensures
        r == (a@ == b@),
{
    let x = a.to_owned();
    let y = b.to_owned();
    x == y
}

/// Exact equality of two optional texts.
pub fn same_opt_text(a: &Option<String>, b: Option<&str>) -> (r: bool)
    ensures
        r == (opt_text(*a) == opt_str(b)),
{
    match (a, b) {
        (Some(x), Some(y)) => same_text(x.as_str(), y),
        (None, None) => true,
        _ => false,
    }
}

/// Borrows an optional text.
pub fn opt_as_str(a: &Option<String>) -> (r: Option<&str>)
    ensures
        opt_str(r) == opt_text(*a),
{
    match a {
        Some(x) => Some(x.as_str()),
        None => None,
    }
}

/// Whether two results share a cache key.
pub fn same_key(a: &Saying, b: &Saying) -> (r: bool)
    ensures
        r == (key_of(*a) == key_of(*b)),
{
    same_opt_text(&a.preset_id, opt_as_str(&b.preset_id)) && same_text(
        a.prompt.as_str(),
        b.prompt.as_str(),
    )
}

/// Copies an optional text.
pub fn copy_opt_text(a: &Option<String>) -> (r: Option<String>)
    ensures
        r == *a,
{
    match a {
        Some(x) => Some(x.clone()),
        None => None,
    }
}

impl Clone for Saying {
    fn clone(&self) -> (r: Self)
        ensures
            r == *self,
    {
        Saying {
            id: self.id.clone(),
            content: self.content.clone(),
            prompt: self.prompt.clone(),
            created_at: self.created_at,
            source: self.source,
            preset_id: copy_opt_text(&self.preset_id),
        }
    }
}

impl Saying {
    /// The same result, marked as served from the cache.
    pub fn as_cached(self) -> (r: Saying)
        ensures
            r == (Saying { source: SayingSource::Cache, ..self }),
    {
        Saying { source: SayingSource::Cache, ..self }
    }

    /// The same result, attributed to `preset_id`.
    pub fn with_preset(self, preset_id: Option<String>) -> (r: Saying)
        ensures
            r == (Saying { preset_id: preset_id, ..self }),
    {
        Saying { preset_id, ..self }
    }
}

/// Identity for global cache lookup: preset and exact prompt text.
#[derive(Debug, Eq, Hash)]
pub struct CacheKey {
    pub preset_id: Option<String>,
    pub prompt: String,
}

impl CacheKey {
    pub fn new(preset_id: Option<String>, prompt: String) -> (r: CacheKey)
        ensures
            r.preset_id == preset_id,
            r.prompt == prompt,
    {
        CacheKey { preset_id, prompt }
    }

    /// The key under which `saying` is cached.
    pub fn from_saying(saying: &Saying) -> (r: CacheKey)
        ensures
            (opt_text(r.preset_id), r.prompt@) == key_of(*saying),
    {
        CacheKey { preset_id: copy_opt_text(&saying.preset_id), prompt: saying.prompt.clone() }
    }
}

impl PartialEq for CacheKey {
    fn eq(&self, other: &CacheKey) -> (r: bool) {
        let same_preset = match (&self.preset_id, &other.preset_id) {
            (Some(a), Some(b)) => same_text(a.as_str(), b.as_str()),
            (None, None) => true,
            _ => false,
        };
        same_preset && same_text(self.prompt.as_str(), other.prompt.as_str())
    }
}

impl vstd::std_specs::cmp::PartialEqSpecImpl for CacheKey {
    open spec fn obeys_eq_spec() -> bool {
        true
    }

    open spec fn eq_spec(&self, other: &CacheKey) -> bool {
        opt_text(self.preset_id) == opt_text(other.preset_id) && self.prompt@ == other.prompt@
    }
}

/// Per-user quota state of the rate limiter.
#[derive(Debug)]
pub struct RateLimitInfo {
    pub user_id: String,
    pub remaining_requests: u32,
    pub reset_at: Millis,
}

impl Clone for RateLimitInfo {
    fn clone(&self) -> (r: Self)
        ensures
            r == *self,
    {
        RateLimitInfo {
            user_id: self.user_id.clone(),
            remaining_requests: self.remaining_requests,
            reset_at: self.reset_at,
        }
    }
}

} // verus!
