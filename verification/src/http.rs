//! Settings of the HTTP front: the base URL and the origins allowed to call
//! the API from a browser.
use vstd::prelude::*;

verus! {

/// The base URL under which the HTTP API is served.
pub struct ApplicationBaseUrl(pub String);

/// `http://localhost`, as bytes.
pub open spec fn local_origin() -> Seq<u8> {
    seq![104u8, 116, 116, 112, 58, 47, 47, 108, 111, 99, 97, 108, 104, 111, 115, 116]
}

/// Whether a browser origin may call the API: its bytes begin with
/// `http://localhost`.
pub fn origin_allowed(origin: &[u8]) -> (b: bool)
    ensures
        b == (local_origin().len() <= origin@.len() && origin@.take(local_origin().len() as int)
            == local_origin()),
{
    let prefix: Vec<u8> = vec![104u8, 116, 116, 112, 58, 47, 47, 108, 111, 99, 97, 108, 104, 111, 115, 116];
    if origin.len() < prefix.len() {
        return false;
    }
    let mut i: usize = 0;
    while i < prefix.len()
        invariant
            prefix@ == local_origin(),
            prefix.len() <= origin.len(),
            i <= prefix.len(),
            forall|j: int| 0 <= j < i ==> origin@[j] == prefix@[j],
        decreases prefix.len() - i,
    {
        if origin[i] != prefix[i] {
            assert(origin@.take(local_origin().len() as int)[i as int] != local_origin()[i as int]);
            return false;
        }
        i = i + 1;
    }
    assert(origin@.take(local_origin().len() as int) =~= local_origin());
    true
}

} // verus!
