//! Credits of a library item. Only the developer is required.

use crate::smap::StringMap;
use vstd::prelude::*;

verus! {

#[derive(Debug)]
pub struct Credits {
    pub developer: String,
    pub publisher: Option<String>,
    pub director: Option<String>,
    pub other: StringMap<String>,
}

/// The two records carry the same credits.
pub open spec fn credits_matches(a: Credits, b: Credits) -> bool {
    &&& a.developer == b.developer
    &&& a.publisher == b.publisher
    &&& a.director == b.director
    &&& a.other.kv_seq() == b.other.kv_seq()
}

impl Clone for Credits {
    fn clone(&self) -> (r: Self)
        ensures
            credits_matches(*self, r),
    {
        let other = self.other.clone();
        proof {
            assert(other.kv_seq() =~= self.other.kv_seq());
        }
        Credits {
            developer: self.developer.clone(),
            publisher: self.publisher.clone(),
            director: self.director.clone(),
            other,
        }
    }
}

} // verus!
