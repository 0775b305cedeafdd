//! The media-player data model: track metadata as plain values, the builder
//! carrying the player-name preference, and the decisions the player watcher
//! makes — which bus name to pick and how to read a playback-status string.

use vstd::prelude::*;

use crate::music::MetadataError;
use crate::music::PlaybackStatus;
use crate::util::str_eq;

verus! {

/// The `Seeked` signal payload: the new playback position in microseconds.
#[derive(Clone, Copy, Debug, PartialEq, Eq, Structural)]
pub struct MediaPlayer2PlayerSeeked {
    pub position: i64,
}

/// Track metadata, as plain values: the fields the renderer reads, each
/// absent when the player did not report it.
#[derive(Clone, Debug)]
pub struct Metadata {
    pub title: Option<String>,
    pub artists: Option<Vec<String>>,
    pub length: Option<i64>,
}

/// `parts` joined with `sep` between each two neighbours.
pub open spec fn joined(parts: Seq<Seq<char>>, sep: Seq<char>) -> Seq<char>
    decreases parts.len(),
{
    if parts.len() == 0 {
        Seq::empty()
    } else if parts.len() == 1 {
        parts[0]
    } else {
        joined(parts.drop_last(), sep) + sep + parts.last()
    }
}

/// Joins strings with a separator.
pub fn join_strings(parts: &Vec<String>, sep: &str) -> (r: String)
    ensures
        r@ == joined(parts@.map_values(|s: String| s@), sep@),
{
    let n = parts.len();
    let mut r = String::new();
    let mut i: usize = 0;
    while i < n
        invariant
            i <= n,
            n == parts@.len(),
            r@ == joined(parts@.take(i as int).map_values(|s: String| s@), sep@),
        decreases n - i,
    {
        if i > 0 {
            r.append(sep);
        }
        r.append(parts[i].as_str());
        proof {
            let views = parts@.map_values(|s: String| s@);
            assert(parts@.take(i + 1).map_values(|s: String| s@) =~= views.take(i + 1));
            assert(parts@.take(i as int).map_values(|s: String| s@) =~= views.take(i as int));
            assert(views.take(i + 1).drop_last() =~= views.take(i as int));
            assert(views.take(i + 1).last() == parts@[i as int]@);
        }
        i += 1;
    }
    proof {
        assert(parts@.take(n as int) =~= parts@);
    }
    r
}

impl Metadata {
    /// The raw length read, before any trait adaptation.
    pub fn length_(&self) -> (r: Result<i64, MetadataError>)
        ensures
            r == match self.length {
                Some(l) => Ok::<i64, MetadataError>(l),
                None => Err(MetadataError::MissingLength),
            },
    {
        match self.length {
            Some(l) => Ok(l),
            None => Err(MetadataError::MissingLength),
        }
    }

    /// The track title, if the player reported one.
    pub fn title(&self) -> (r: Result<String, MetadataError>)
        ensures
            match r {
                Ok(t) => self.title is Some && t@ == self.title.unwrap()@,
                Err(e) => self.title is None && e == MetadataError::MissingTitle,
            },
    {
        match &self.title {
            Some(t) => Ok(t.clone()),
            None => Err(MetadataError::MissingTitle),
        }
    }

    /// All artists joined with a comma, if the player reported any list.
    pub fn artists(&self) -> (r: Result<String, MetadataError>)
        ensures
            match r {
                Ok(a) => self.artists is Some && a@ == joined(
                    self.artists.unwrap()@.map_values(|s: String| s@),
                    ", "@,
                ),
                Err(e) => self.artists is None && e == MetadataError::MissingArtists,
            },
    {
        match &self.artists {
            Some(list) => Ok(join_strings(list, ", ")),
            None => Err(MetadataError::MissingArtists),
        }
    }

    /// The track length, if the player reported one.
    pub fn length(&self) -> (r: Result<i64, MetadataError>)
        ensures
            r == match self.length {
                Some(l) => Ok::<i64, MetadataError>(l),
                None => Err(MetadataError::MissingLength),
            },
    {
        self.length_()
    }
}

impl crate::music::Metadata for Metadata {
    fn title(&self) -> Result<String, MetadataError> {
        Metadata::title(self)
    }

    fn artists(&self) -> Result<String, MetadataError> {
        Metadata::artists(self)
    }

    fn length(&self) -> Result<i64, MetadataError> {
        Metadata::length(self)
    }
}

/// Configuration of the media-player source: an optional preference for a
/// particular player name.
#[derive(Clone, Debug)]
pub struct MediaPlayerBuilder {
    pub name: Option<String>,
}

impl MediaPlayerBuilder {
    pub fn new() -> (r: Self)
        ensures
            r.name is None,
    {
        MediaPlayerBuilder { name: None }
    }

    pub fn with_player_name(self, name: &str) -> (r: Self)
        ensures
            r.name is Some,
            r.name.unwrap()@ == name@,
    {
        MediaPlayerBuilder { name: Some(name.to_owned()) }
    }
}

/// A playback-status string that names no known state.
#[derive(Clone, Copy, Debug, PartialEq, Eq, Structural)]
pub struct BadPlaybackStatus;

/// Reads a playback-status string from the wire: exactly the three documented
/// values are accepted.
pub fn parse_playback_status(s: &str) -> (r: Result<PlaybackStatus, BadPlaybackStatus>)
    ensures
        r == if s@ == "Playing"@ {
            Ok::<PlaybackStatus, BadPlaybackStatus>(PlaybackStatus::Playing)
        } else if s@ == "Paused"@ {
            Ok::<PlaybackStatus, BadPlaybackStatus>(PlaybackStatus::Paused)
        } else if s@ == "Stopped"@ {
            Ok::<PlaybackStatus, BadPlaybackStatus>(PlaybackStatus::Stopped)
        } else {
            Err::<PlaybackStatus, BadPlaybackStatus>(BadPlaybackStatus)
        },
{
    if str_eq(s, "Playing") {
        Ok(PlaybackStatus::Playing)
    } else if str_eq(s, "Paused") {
        Ok(PlaybackStatus::Paused)
    } else if str_eq(s, "Stopped") {
        Ok(PlaybackStatus::Stopped)
    } else {
        Err(BadPlaybackStatus)
    }
}

/// `needle` occurs as a contiguous run of characters in `hay`.
pub open spec fn contains_seq(hay: Seq<char>, needle: Seq<char>) -> bool {
    exists|k: int|
        0 <= k && k + needle.len() <= hay.len() && #[trigger] hay.subrange(k, k + needle.len())
            == needle
}

/// Whether `needle` occurs at offset `k` of `hay`.
fn match_at(hay: &str, needle: &str, k: usize) -> (r: bool)
    requires
        k + needle@.len() <= hay@.len(),
        k + needle@.len() <= usize::MAX,
    ensures
        r == (hay@.subrange(k as int, k + needle@.len()) == needle@),
{
    let nn = needle.unicode_len();
    let mut j: usize = 0;
    while j < nn
        invariant
            j <= nn,
            nn == needle@.len(),
            k + nn <= hay@.len(),
            k + nn <= usize::MAX,
            forall|t: int| 0 <= t < j ==> hay@[k + t] == needle@[t],
        decreases nn - j,
    {
        if hay.get_char(k + j) != needle.get_char(j) {
            proof {
                assert(hay@.subrange(k as int, k + needle@.len())[j as int] == hay@[k + j]);
            }
            return false;
        }
        j += 1;
    }
    proof {
        assert(hay@.subrange(k as int, k + needle@.len()) =~= needle@);
    }
    true
}

/// Substring search over character views.
pub fn str_contains(hay: &str, needle: &str) -> (r: bool)
    ensures
        r == contains_seq(hay@, needle@),
{
    let hn = hay.unicode_len();
    let nn = needle.unicode_len();
    if nn > hn {
        return false;
    }
    if nn == 0 {
        proof {
            assert(hay@.subrange(0, 0 + needle@.len() as int) =~= needle@);
            assert(contains_seq(hay@, needle@));
        }
        return true;
    }
    let mut k: usize = 0;
    while k <= hn - nn
        invariant
            1 <= nn <= hn,
            hn == hay@.len(),
            nn == needle@.len(),
            k <= hn - nn + 1,
            forall|kk: int| 0 <= kk < k
                ==> #[trigger] hay@.subrange(kk, kk + needle@.len()) != needle@,
        ensures
            k <= hn - nn + 1,
            (k <= hn - nn) == contains_seq(hay@, needle@),
        decreases hn - nn - k + 1,
    {
        if match_at(hay, needle, k) {
            break;
        }
        k += 1;
    }
    k <= hn - nn
}

/// The first registered player name that contains the preferred name, when a
/// preference was configured: the index the watcher connects to.
pub fn find_preferred(names: &Vec<String>, preference: &str) -> (r: Option<usize>)
    ensures
        match r {
            Some(i) => {
                &&& i < names@.len()
                &&& contains_seq(names@[i as int]@, preference@)
                &&& forall|j: int| 0 <= j < i ==> !contains_seq(names@[j]@, preference@)
            },
            None => forall|j: int| 0 <= j < names@.len()
                ==> !contains_seq(names@[j]@, preference@),
        },
{
    let n = names.len();
    let mut i: usize = 0;
    while i < n
        invariant
            i <= n,
            n == names@.len(),
            forall|j: int| 0 <= j < i ==> !contains_seq(names@[j]@, preference@),
        decreases n - i,
    {
        if str_contains(names[i].as_str(), preference) {
            return Some(i);
        }
        i += 1;
    }
    None
}

/// Without a preference: the first candidate that is playing or paused — a
/// stopped player could be the remnant of a dead session and is skipped.
pub fn find_active(statuses: &Vec<PlaybackStatus>) -> (r: Option<usize>)
    ensures
        match r {
            Some(i) => {
                &&& i < statuses@.len()
                &&& (statuses@[i as int] == PlaybackStatus::Playing
                    || statuses@[i as int] == PlaybackStatus::Paused)
                &&& forall|j: int| 0 <= j < i ==> statuses@[j] == PlaybackStatus::Stopped
            },
            None => forall|j: int| 0 <= j < statuses@.len()
                ==> statuses@[j] == PlaybackStatus::Stopped,
        },
{
    let n = statuses.len();
    let mut i: usize = 0;
    while i < n
        invariant
            i <= n,
            n == statuses@.len(),
            forall|j: int| 0 <= j < i ==> statuses@[j] == PlaybackStatus::Stopped,
        decreases n - i,
    {
        match statuses[i] {
            PlaybackStatus::Playing | PlaybackStatus::Paused => {
                return Some(i);
            },
            PlaybackStatus::Stopped => {},
        }
        i += 1;
    }
    None
}

} // verus!
