use vstd::prelude::*;
use vstd::string::StrSliceExecFns;

verus! {

/// Whether `p` is a prefix of `s`.
pub open spec fn spec_starts_with(s: Seq<char>, p: Seq<char>) -> bool {
    p.len() <= s.len() && s.subrange(0, p.len() as int) == p
}

/// Whether `p` occurs in `s` starting at position `k`.
pub open spec fn spec_match_at(s: Seq<char>, p: Seq<char>, k: int) -> bool {
    0 <= k && k + p.len() <= s.len() && s.subrange(k, k + p.len()) == p
}

/// Whether `p` occurs anywhere in `s`.
pub open spec fn spec_contains_seq(s: Seq<char>, p: Seq<char>) -> bool {
    exists|k: int| spec_match_at(s, p, k)
}

fn str_starts_with(s: &str, p: &str) -> (r: bool)
    ensures
        r == spec_starts_with(s@, p@),
{
    let sl = s.unicode_len();
    let pl = p.unicode_len();
    if pl > sl {
        return false;
    }
    let mut i: usize = 0;
    while i < pl
        invariant
            i <= pl,
            pl == p@.len(),
            pl <= sl,
            sl == s@.len(),
            forall|j: int| 0 <= j < i ==> s@[j] == p@[j],
        decreases pl - i,
    {
        if s.get_char(i) != p.get_char(i) {
            proof {
                assert(s@.subrange(0, p@.len() as int)[i as int] == s@[i as int]);
            }
            return false;
        }
        i = i + 1;
    }
    proof {
        assert(s@.subrange(0, p@.len() as int) =~= p@);
    }
    true
}

fn match_at(s: &str, p: &str, k: usize) -> (r: bool)
    requires
        k + p@.len() <= s@.len(),
    ensures
        r == spec_match_at(s@, p@, k as int),
{
    let pl = p.unicode_len();
    let sl = s.unicode_len();
    let mut i: usize = 0;
    while i < pl
        invariant
            i <= pl,
            pl == p@.len(),
            sl == s@.len(),
            k + pl <= sl,
            forall|j: int| 0 <= j < i ==> s@[k + j] == p@[j],
        decreases pl - i,
    {
        if s.get_char(k + i) != p.get_char(i) {
            proof {
                assert(s@.subrange(k as int, k + p@.len())[i as int] == s@[k + i]);
            }
            return false;
        }
        i = i + 1;
    }
    proof {
        assert(s@.subrange(k as int, k + p@.len()) =~= p@);
    }
    true
}

fn str_contains(s: &str, p: &str) -> (r: bool)
    ensures
        r == spec_contains_seq(s@, p@),
{
    let sl = s.unicode_len();
    let pl = p.unicode_len();
    if pl > sl {
        proof {
            assert forall|k: int| !spec_match_at(s@, p@, k) by {}
        }
        return false;
    }
    if pl == 0 {
        proof {
            assert(s@.subrange(0, 0) =~= p@);
            assert(spec_match_at(s@, p@, 0));
        }
        return true;
    }
    let mut k: usize = 0;
    while k <= sl - pl
        invariant
            1 <= pl <= sl,
            sl == s@.len(),
            pl == p@.len(),
            k <= sl - pl + 1,
            forall|j: int| 0 <= j < k ==> !spec_match_at(s@, p@, j),
        decreases sl - pl - k + 1,
    {
        if match_at(s, p, k) {
            return true;
        }
        k = k + 1;
    }
    proof {
        assert forall|j: int| !spec_match_at(s@, p@, j) by {
            if 0 <= j < k {
                assert(!spec_match_at(s@, p@, j));
            }
        }
    }
    false
}

fn find_char(s: &str, c: char) -> (r: Option<usize>)
    ensures
        match r {
            Some(i) => i < s@.len() && s@[i as int] == c && (forall|j: int|
                0 <= j < i ==> s@[j] != c),
            None => forall|j: int| 0 <= j < s@.len() ==> s@[j] != c,
        },
{
    let sl = s.unicode_len();
    let mut i: usize = 0;
    while i < sl
        invariant
            i <= sl,
            sl == s@.len(),
            forall|j: int| 0 <= j < i ==> s@[j] != c,
        decreases sl - i,
    {
        if s.get_char(i) == c {
            return Some(i);
        }
        i = i + 1;
    }
    None
}

/// How a play request is dispatched.
#[derive(Debug)]
pub enum PlayRequest {
    /// A link that names a playlist (it carries a list parameter):
    /// its entries are listed and enqueued one by one.
    YtPlaylist(String),
    /// A link to a playlist on the streaming service: the playlist id
    /// to look its tracks up by.
    SpotifyPlaylist(String),
    /// A direct link to a single video or audio source.
    DirectUrl(String),
    /// Free text, searched for as a song name.
    Search(String),
}

/// The fixed playlist-link prefix.
pub open spec fn spec_spotify_prefix() -> Seq<char> {
    "https://open.spotify.com/playlist/"@
}

/// What a correct playlist id extracted from link `u` looks like:
/// everything between the fixed prefix and the first query marker,
/// or to the end when the link carries none.
pub open spec fn spec_spotify_id_ok(u: Seq<char>, id: Seq<char>) -> bool {
    let rest = u.subrange(spec_spotify_prefix().len() as int, u.len() as int);
    ||| ((forall|j: int| 0 <= j < rest.len() ==> rest[j] != '?') && id == rest)
    ||| (exists|i: int|
        0 <= i < rest.len() && rest[i] == '?' && id == rest.subrange(0, i) && (forall|j: int|
            0 <= j < i ==> rest[j] != '?'))
}

/// Sort a play request the way the play command dispatches it: a
/// link with a list parameter is a playlist, a playlist link on the
/// streaming service yields its id, any other link is direct, and
/// anything that is no link is a search.
pub fn classify_play_request(url: String) -> (r: PlayRequest)
    ensures
        (spec_starts_with(url@, "http"@) && spec_contains_seq(url@, "list="@)) ==> (r matches
            PlayRequest::YtPlaylist(u) && u@ == url@),
        (spec_starts_with(url@, "http"@) && !spec_contains_seq(url@, "list="@)
            && spec_starts_with(url@, spec_spotify_prefix())) ==> (r matches
            PlayRequest::SpotifyPlaylist(id) && spec_spotify_id_ok(url@, id@)),
        (spec_starts_with(url@, "http"@) && !spec_contains_seq(url@, "list="@)
            && !spec_starts_with(url@, spec_spotify_prefix())) ==> (r matches
            PlayRequest::DirectUrl(u) && u@ == url@),
        !spec_starts_with(url@, "http"@) ==> (r matches PlayRequest::Search(u) && u@ == url@),
{
    if !str_starts_with(url.as_str(), "http") {
        return PlayRequest::Search(url);
    }
    if str_contains(url.as_str(), "list=") {
        return PlayRequest::YtPlaylist(url);
    }
    if str_starts_with(url.as_str(), "https://open.spotify.com/playlist/") {
        let plen = "https://open.spotify.com/playlist/".unicode_len();
        let ulen = url.as_str().unicode_len();
        let rest = url.as_str().substring_char(plen, ulen);
        let id = match find_char(rest, '?') {
            Some(i) => rest.substring_char(0, i).to_owned(),
            None => rest.to_owned(),
        };
        return PlayRequest::SpotifyPlaylist(id);
    }
    PlayRequest::DirectUrl(url)
}

/// How the driver reports a handle's mode.
#[derive(Debug, Clone, Copy, PartialEq, Eq, Structural)]
pub enum PlayState {
    Playing,
    Paused,
    Stopped,
}

/// What the pause command does for each reported mode.
#[derive(Debug, Clone, Copy, PartialEq, Eq, Structural)]
pub enum PauseAction {
    /// The track plays: pause it.
    PauseNow,
    /// The track is paused: resume it.
    ResumeNow,
    /// Nothing is playing: only say so.
    ReportIdle,
}

/// The pause command toggles: a playing track is paused, a paused
/// one resumed, anything else only reported.
pub fn pause_toggle(state: PlayState) -> (r: PauseAction)
    ensures
        state is Playing ==> r is PauseNow,
        state is Paused ==> r is ResumeNow,
        state is Stopped ==> r is ReportIdle,
{
    match state {
        PlayState::Playing => PauseAction::PauseNow,
        PlayState::Paused => PauseAction::ResumeNow,
        PlayState::Stopped => PauseAction::ReportIdle,
    }
}

/// What the resume command does for each reported mode.
#[derive(Debug, Clone, Copy, PartialEq, Eq, Structural)]
pub enum ResumeAction {
    /// The track is paused: resume it.
    ResumeNow,
    /// The track already plays: only say so.
    ReportAlreadyPlaying,
    /// Nothing is playing: only say so.
    ReportIdle,
}

/// The resume command resumes a paused track and otherwise reports.
pub fn resume_decision(state: PlayState) -> (r: ResumeAction)
    ensures
        state is Paused ==> r is ResumeNow,
        state is Playing ==> r is ReportAlreadyPlaying,
        state is Stopped ==> r is ReportIdle,
{
    match state {
        PlayState::Paused => ResumeAction::ResumeNow,
        PlayState::Playing => ResumeAction::ReportAlreadyPlaying,
        PlayState::Stopped => ResumeAction::ReportIdle,
    }
}

/// How a remove request is carried out.
#[derive(Debug, Clone, Copy, PartialEq, Eq, Structural)]
pub enum RemovePlan {
    /// Index zero names the current track: skip it; the head leaves
    /// the queue when the provoked ended notification arrives.
    SkipCurrent,
    /// Take the entry at this index out of the queue.
    TakeAt(usize),
}

/// The remove command's dispatch: index zero skips the current
/// track, a waiting entry's index removes that entry, and an index
/// past the end is refused.
pub fn plan_remove(len: usize, index: usize) -> (r: Result<
    RemovePlan,
    crate::queue::QueueError,
>)
    ensures
        index == 0 ==> r == Ok::<RemovePlan, crate::queue::QueueError>(RemovePlan::SkipCurrent),
        0 < index < len ==> r == Ok::<RemovePlan, crate::queue::QueueError>(
            RemovePlan::TakeAt(index),
        ),
        index >= len > 0 ==> r == Err::<RemovePlan, crate::queue::QueueError>(
            crate::queue::QueueError::IndexOutOfRange,
        ),
{
    if index == 0 {
        Ok(RemovePlan::SkipCurrent)
    } else if index < len {
        Ok(RemovePlan::TakeAt(index))
    } else {
        Err(crate::queue::QueueError::IndexOutOfRange)
    }
}

/// Whether a requested guild prefix is short enough to set.
pub fn valid_prefix(prefix: &str) -> (r: bool)
    ensures
        r == (prefix@.len() <= 5),
{
    prefix.unicode_len() <= 5
}

/// Whether a requested volume lies in the accepted range.
pub fn volume_in_range(volume: i32) -> (r: bool)
    ensures
        r == (0 <= volume <= 100),
{
    0 <= volume && volume <= 100
}

} // verus!
