use vstd::prelude::*;

verus! {

/// One lyrics lookup result: the text and what it is credited to.
#[derive(Debug, Clone)]
pub struct Data {
    pub lyrics: String,
    pub name: String,
    pub artist: String,
}

impl Data {
    /// An equal copy of this result.
    pub fn duplicate(&self) -> (r: Data)
        ensures
            r == *self,
    {
        Data {
            lyrics: self.lyrics.clone(),
            name: self.name.clone(),
            artist: self.artist.clone(),
        }
    }
}

/// The entry shown to the user: the first one the lookup returned,
/// or nothing when it returned none.
pub fn first_song(results: &Vec<Data>) -> (r: Option<Data>)
    ensures
        results@.len() == 0 ==> r is None,
        results@.len() > 0 ==> r == Some(results@[0]),
{
    if results.len() == 0 {
        None
    } else {
        Some(results[0].duplicate())
    }
}

} // verus!
