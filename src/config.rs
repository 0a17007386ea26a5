//! Service settings and the choice of storage backend.

use vstd::prelude::*;
use crate::models::same_text;

verus! {

/// Where the service listens.
#[derive(Debug, Clone)]
pub struct ServerConfig {
    pub host: String,
    pub port: u16,
}

/// How to reach the text-generation service.
#[derive(Debug, Clone)]
pub struct OpenRouterConfig {
    pub api_key: String,
    pub model: String,
    pub base_url: String,
}

/// The quota of a window and the window's length.
#[derive(Debug, Clone, Copy)]
pub struct RateLimitConfig {
    pub max_requests: u32,
    pub window_seconds: u64,
}

/// The kinds of storage backend a deployment can ask for.
#[derive(Debug, Clone, Copy, PartialEq, Eq, Structural)]
pub enum StorageType {
    SQLite,
    Redis,
    Memory,
    Sled,
}

/// The backends that actually exist.
#[derive(Debug, Clone, Copy, PartialEq, Eq, Structural)]
pub enum Backend {
    Memory,
    Sled,
}

/// Which store to use and where it keeps its data.
#[derive(Debug, Clone)]
pub struct StorageConfig {
    pub type_: StorageType,
    pub connection_string: String,
}

/// All settings of the service.
#[derive(Debug, Clone)]
pub struct Config {
    pub server: ServerConfig,
    pub openrouter: OpenRouterConfig,
    pub rate_limit: RateLimitConfig,
    pub storage: StorageConfig,
}

/// The storage kind a configured name selects; unknown names select memory.
pub open spec fn storage_type_named(name: Seq<char>) -> StorageType {
    if name == "sqlite"@ {
        StorageType::SQLite
    } else if name == "redis"@ {
        StorageType::Redis
    } else if name == "sled"@ {
        StorageType::Sled
    } else {
        StorageType::Memory
    }
}

impl StorageType {
    /// Reads a configured storage name: `sqlite`, `redis`, `sled`, anything
    /// else meaning memory.
    pub fn from_name(name: &str) -> (r: StorageType)
        ensures
            r == storage_type_named(name@),
    {
        if same_text(name, "sqlite") {
            StorageType::SQLite
        } else if same_text(name, "redis") {
            StorageType::Redis
        } else if same_text(name, "sled") {
            StorageType::Sled
        } else {
            StorageType::Memory
        }
    }

    /// The backend this kind resolves to: the durable file store for `Sled`,
    /// memory for every kind that has no backend of its own.
    pub fn backend(&self) -> (r: Backend)
        ensures
            r == (if *self == StorageType::Sled {
                Backend::Sled
            } else {
                Backend::Memory
            }),
    {
        match self {
            StorageType::Sled => Backend::Sled,
            _ => Backend::Memory,
        }
    }
}

} // verus!
