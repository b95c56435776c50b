//! Verified core of the ARAGS data plane: the decisions and bookkeeping that
//! sit between the SQLite/vector-index I/O of the server and its callers.
use vstd::prelude::*;

pub mod answers;
pub mod embedder;
pub mod explorations;
pub mod hashing;
pub mod hexcodec;
pub mod lexical;
pub mod persistence;
pub mod primitives;
pub mod queue;
pub mod quorum;
pub mod ratelimit;
pub mod reports;
pub mod rlm;
pub mod rows;
pub mod text;
pub mod timing;
pub mod tokens;
pub mod versioning;

verus! {

} // verus!
