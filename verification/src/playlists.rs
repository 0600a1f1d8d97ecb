use vstd::prelude::*;
use vstd::string::StringExecFns;

verus! {

/// One entry of a video playlist listing: the title the track is
/// searched by.
#[derive(Debug)]
pub struct YtPlayListResponse {
    pub title: String,
}

/// What reading a playlist listing can leave behind.
#[derive(Debug)]
pub enum YtPlayListError {
    /// The lister exited with an error; the bytes it printed.
    ListOfUrlsError(Vec<u8>),
}

impl YtPlayListError {
    /// The bytes the failed lister printed.
    pub fn stderr(&self) -> (r: &Vec<u8>)
        ensures
            *self matches YtPlayListError::ListOfUrlsError(b) && r@ == b@,
    {
        match self {
            YtPlayListError::ListOfUrlsError(b) => b,
        }
    }
}

/// The tracks of an external playlist, as its lookup reports them.
#[derive(Debug)]
pub struct SpotifyPlaylistResponse {
    pub items: Vec<Items>,
}

/// One playlist item.
#[derive(Debug)]
pub struct Items {
    pub track: Track,
}

/// One track: its name and its credited artists.
#[derive(Debug)]
pub struct Track {
    pub name: String,
    pub artists: Vec<Artists>,
}

/// One credited artist.
#[derive(Debug)]
pub struct Artists {
    pub name: String,
}

/// The search term a playlist track is enqueued under: its name and
/// its first credited artist, space-separated.
pub open spec fn spec_search_term(t: Track) -> Seq<char> {
    t.name@ + " "@ + t.artists[0].name@
}

/// The search terms for a playlist's tracks, in playlist order. Each
/// track must credit at least one artist; the lookup never reports
/// one without.
pub fn spotify_search_terms(resp: &SpotifyPlaylistResponse) -> (r: Vec<String>)
    requires
        forall|i: int| 0 <= i < resp.items@.len() ==> resp.items@[i].track.artists@.len() >= 1,
    ensures
        r@.len() == resp.items@.len(),
        forall|i: int| 0 <= i < r@.len() ==> r@[i]@ == spec_search_term(resp.items@[i].track),
{
    let mut out: Vec<String> = Vec::new();
    let mut i: usize = 0;
    while i < resp.items.len()
        invariant
            i <= resp.items@.len(),
            out@.len() == i,
            forall|j: int| 0 <= j < resp.items@.len() ==> resp.items@[j].track.artists@.len()
                >= 1,
            forall|j: int| 0 <= j < i ==> out@[j]@ == spec_search_term(resp.items@[j].track),
        decreases resp.items@.len() - i,
    {
        let track = &resp.items[i].track;
        let term = track.name.clone().concat(" ").concat(track.artists[0].name.as_str());
        proof {
            assert(term@ =~= spec_search_term(resp.items@[i as int].track));
        }
        out.push(term);
        i = i + 1;
    }
    out
}

} // verus!
