//! What the cache keeps, and under which names.
//!
//! The cache saves us from analyzing whole databases on every call. Each kind of cached data
//! names its key type, so that data is always read back with the kind of key it was written
//! with, and each kind has a folder of its own.
use crate::context::{Context, ContextName};
use crate::engine::sql::structure::{Server, ServerParams};
use vstd::prelude::*;

verus! {

/// The key of cached data: where in its folder the data is kept.
pub trait CacheKey {
    fn as_path(&self) -> String;
}

/// Data that can be cached.
pub trait Cacheable {
    /// The kind of key this data is read and written with.
    type CacheKey;

    fn cache_key(&self) -> Self::CacheKey;

    /// The name of the folder that all data of this kind is kept in; unique to the kind.
    fn type_id() -> &'static str;
}

/// The key of data of which there is only one.
pub struct SharedCacheKey(pub String);

impl CacheKey for SharedCacheKey {
    fn as_path(&self) -> (r: String)
        ensures
            r@ == self.0@,
    {
        self.0.clone()
    }
}

impl Cacheable for Server {
    type CacheKey = ServerParams;

    fn cache_key(&self) -> (r: ServerParams)
        ensures
            r.deep_view() == self.params.deep_view(),
    {
        self.params.copy()
    }

    fn type_id() -> (r: &'static str)
        ensures
            r@ == "server"@,
    {
        "server"
    }
}

impl CacheKey for ServerParams {
    /// `server-<host>-<port>-<user>.json`.
    fn as_path(&self) -> (r: String)
        ensures
            r@ == "server-"@ + self.hostname@ + "-"@
                + crate::engine::rendering::query_rendering::decimal_text(self.port as nat) + "-"@
                + self.user@ + ".json"@,
    {
        let mut out = String::from_str("server-");
        out.append(self.hostname.as_str());
        out.append("-");
        crate::engine::rendering::query_rendering::write_decimal(&mut out, self.port as usize);
        out.append("-");
        out.append(self.user.as_str());
        out.append(".json");
        out
    }
}

impl Cacheable for Context {
    type CacheKey = ContextName;

    fn cache_key(&self) -> (r: ContextName)
        ensures
            r@ == self.name@,
    {
        self.name.copy()
    }

    fn type_id() -> (r: &'static str)
        ensures
            r@ == "context"@,
    {
        "context"
    }
}

impl CacheKey for ContextName {
    /// `context_<name>.json`.
    fn as_path(&self) -> (r: String)
        ensures
            r@ == "context_"@ + self@ + ".json"@,
    {
        let mut out = String::from_str("context_");
        out.append(self.0.as_str());
        out.append(".json");
        out
    }
}

/// The name of the context in use is kept under a key of its own, whatever the name is.
impl Cacheable for ContextName {
    type CacheKey = SharedCacheKey;

    fn cache_key(&self) -> (r: SharedCacheKey)
        ensures
            r.0@ == "current_context"@,
    {
        SharedCacheKey(String::from_str(ContextName::type_id()))
    }

    fn type_id() -> (r: &'static str)
        ensures
            r@ == "current_context"@,
    {
        "current_context"
    }
}

} // verus!
