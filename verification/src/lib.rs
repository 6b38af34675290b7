//! A small terminal text editor core: a row/document model with tab-expanded
//! render and highlight caches, cursor and viewport arithmetic, an incremental
//! search engine, key decoding, and frame composition. All terminal, file and
//! clock access lives outside this crate; the functions here work on plain
//! values and carry verified contracts.
use vstd::prelude::*;

pub mod editor;
pub mod input;
pub mod keys;
pub mod row;
pub mod screen;
pub mod search;
pub mod terminal;
pub mod text;

verus! {

/// Returns the value under `Ok`; callers must rule the error case out first.
/// (The surrounding program treats such errors as fatal and exits on them
/// before calling in here.)
pub fn unwrap_or_die<T, E>(r: Result<T, E>) -> (t: T)
    requires
        r is Ok,
    ensures
        r == Ok::<T, E>(t),
{
    match r {
        Result::Ok(t) => t,
        Result::Err(_) => vstd::pervasive::unreached(),
    }
}

} // verus!
