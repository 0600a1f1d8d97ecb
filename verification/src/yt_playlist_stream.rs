use vstd::prelude::*;

verus! {

/// One entry of a flat playlist listing: the canonical address of
/// the entry.
#[derive(Debug)]
pub struct PlayListResponse {
    pub url: String,
}

/// What reading a flat playlist listing can leave behind.
#[derive(Debug)]
pub enum PlayListError {
    /// The lister exited with an error; the bytes it printed.
    ListOfUrlsError(Vec<u8>),
}

impl PlayListError {
    /// The bytes the failed lister printed.
    pub fn stderr(&self) -> (r: &Vec<u8>)
        ensures
            *self matches PlayListError::ListOfUrlsError(b) && r@ == b@,
    {
        match self {
            PlayListError::ListOfUrlsError(b) => b,
        }
    }
}

} // verus!
