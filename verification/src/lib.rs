//! A record-and-replay cache for model-inference RPC traffic.
//!
//! An incoming inference request is canonicalized into a fingerprint, the
//! fingerprint is matched against stored entries under a configurable
//! equivalence relation, and matched entries are answered from a
//! content-addressed store whose file names are derived from four partial
//! hashes of the request and response.

pub mod cachable;
pub mod cachable_modelconfig;
pub mod cachable_modelinfer;
pub mod cachestore;
pub mod codec;
pub mod fingerprint;
pub mod hashing;
pub mod protocol;
pub mod response;
pub mod service;
pub mod settings;
pub mod hexcode;
pub mod inference_store;
pub mod laws;
pub mod matching;
pub mod params;
pub mod pmap;
pub mod urlcode;

pub use params::InferParameter;
pub use params::Parameter;

