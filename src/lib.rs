//! Feed synchronisation and download orchestration for podcast subscriptions.
use vstd::prelude::*;

pub mod discovery;
pub mod downloads;
pub mod error;
pub mod extensions;
pub mod feed;
pub mod media;
pub mod models;
pub mod naming;
pub mod numbers;
pub mod ordering;
pub mod retention;
pub mod schedule;
pub mod text;

verus! {

} // verus!
