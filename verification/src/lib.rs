//! Verified core of an S3-compatible object-storage accessor.
//!
//! The library exposes the pure, decision-making parts of the accessor:
//! the path model between the caller-visible virtual namespace and the
//! store's flat key namespace, endpoint/region resolution, the
//! server-side-encryption header policy, request construction for the five
//! logical operations, response interpretation with a uniform error
//! taxonomy, and the pagination state machine for listings.  An unverified
//! shell performs the HTTP exchanges and request signing and feeds the
//! results back into these functions as plain values.

pub mod backend;
pub mod codecs;
pub mod endpoint;
pub mod error;
pub mod headers;
pub mod list;
pub mod metadata;
pub mod path;
pub mod range;
pub mod strutil;
