//! Indexing, caching and shuffling of a music library, with the logic proved by Verus.
pub mod paths;
pub mod order;
pub mod scanner;
pub mod sampler;
pub mod metadata;
pub mod cache;
pub mod playlist;
pub mod loader;
pub mod clock;
pub mod timefmt;
pub mod settings;
