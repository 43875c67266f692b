pub mod assoc;
pub mod compress;
pub mod config;
pub mod counter;
pub mod engine;
pub mod errors;
pub mod format;
pub mod forms;
pub mod id;
pub mod limits;
pub mod normalize;
pub mod paste;
pub mod purge;
pub mod s3;
pub mod session;
pub mod store;
pub mod text;

use vstd::prelude::*;

verus! {

/// Largest compressed payload, in bytes, that the primary object store accepts.
pub const MAX_CONTENT_LENGTH: usize = 2097152;

} // verus!
