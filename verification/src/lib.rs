pub mod bump;
pub mod compose;
pub mod controller;
pub mod coordinator;
pub mod gitlab;
pub mod lmerge;
pub mod mattermost;
pub mod mm2glab;
pub mod mrun;
pub mod pla;
pub mod repo;
pub mod terminal;
pub mod text;
pub mod version;

use vstd::prelude::*;

verus! {

/// The smaller of two counts, used where a preselection cannot exceed
/// what is listed.
pub fn min_usize(a: usize, b: usize) -> (r: usize)
    ensures
        r <= a,
        r <= b,
        r == a || r == b,
{
    if a < b {
        a
    } else {
        b
    }
}

} // verus!
