//! Decisions of the media-session poller: which session to follow, how the
//! session's tick counts become milliseconds, and when to refresh what.

use vstd::prelude::*;
use crate::config::{contains_string, views};

verus! {

/// Milliseconds in a duration of 100-nanosecond ticks; 0 for one that is
/// not positive.
pub open spec fn ticks_ms(raw: i64) -> u64 {
    if raw > 0 {
        (raw / 10_000) as u64
    } else {
        0
    }
}

/// Converts a position or end time reported in ticks to milliseconds.
pub fn ticks_to_ms(raw: i64) -> (r: u64)
    ensures
        r == ticks_ms(raw),
{
    if raw > 0 {
        (raw / 10_000) as u64
    } else {
        0
    }
}

/// Converts an end time reported in ticks to whole seconds.
pub fn ticks_to_secs(raw: i64) -> (r: u64)
    ensures
        r == (if raw > 0 { raw / 10_000_000 } else { 0 }),
{
    if raw > 0 {
        (raw / 10_000_000) as u64
    } else {
        0
    }
}

/// The tick count of a seek to `position_ms`.
pub fn seek_ticks(position_ms: u64) -> (r: i64)
    requires
        position_ms * 10_000 <= i64::MAX,
    ensures
        r == position_ms * 10_000,
{
    position_ms as i64 * 10_000
}

/// Whether the first report after start-up can be trusted: it has a
/// duration or a position, or nothing is playing, or there is no song.
pub fn timeline_ready(duration_ms: u64, position_ms: u64, is_playing: bool, title: &str) -> (r: bool)
    ensures
        r == (duration_ms > 0 || position_ms > 0 || !is_playing || title@.len() == 0),
{
    duration_ms > 0 || position_ms > 0 || !is_playing || title.is_empty()
}

/// Of all seek requests that queued up since the last round, the one that is
/// carried out: the latest.
pub fn latest_seek(requests: &Vec<u64>) -> (r: Option<u64>)
    ensures
        r == (if requests@.len() == 0 { None } else { Some(requests@.last()) }),
{
    if requests.len() == 0 {
        None
    } else {
        Some(requests[requests.len() - 1])
    }
}

/// Counts a regular poll; every tenth one also looks for new music apps.
pub fn poll_tick(count: u32) -> (r: (u32, bool))
    requires
        count < u32::MAX,
    ensures
        r.0 == count + 1,
        r.1 == ((count + 1) % 10 == 0),
{
    let n = count + 1;
    (n, n % 10 == 0)
}

/// Whether a change of the lyrics source calls for fetching the current
/// song's lyrics again: the source really changed and a song is known.
pub fn lyrics_refetch_due(new_source: &String, current_source: &String, title: &str) -> (r: bool)
    ensures
        r == (new_source@ != current_source@ && title@.len() > 0),
{
    !(*new_source == *current_source) && !title.is_empty()
}

/// Whether the cover art is fetched (again) after a report: on a new song;
/// when play state changed while there is no cover; or at least every five
/// seconds while a song is known.
pub fn thumbnail_refresh_due(song_changed: bool, was_playing: bool, is_playing: bool, has_thumbnail: bool,
    title_empty: bool, since_fetch_ms: u64) -> (r: bool)
    ensures
        r == (song_changed || (was_playing != is_playing && !has_thumbnail && !title_empty)
            || (!title_empty && since_fetch_ms >= 5000)),
{
    song_changed || (was_playing != is_playing && !has_thumbnail && !title_empty)
        || (!title_empty && since_fetch_ms >= 5000)
}

/// The pause before the next try at fetching cover art.
pub fn thumbnail_retry_delay_ms(attempt: u32) -> (r: u64)
    ensures
        r == (if attempt < 3 { 300u64 } else { 500u64 }),
{
    if attempt < 3 {
        300
    } else {
        500
    }
}

/// A request the island sends to the media session.
pub enum PlaybackCommand {
    Toggle,
    Next,
    Prev,
}

/// What the session is asked to do.
pub enum SessionAction {
    Play,
    Pause,
    SkipNext,
    SkipPrevious,
}

/// The session call a request comes to: a toggle pauses what plays and
/// plays what does not.
pub fn playback_action(cmd: &PlaybackCommand, is_playing: bool) -> (r: SessionAction)
    ensures
        match cmd {
            PlaybackCommand::Toggle => if is_playing { r is Pause } else { r is Play },
            PlaybackCommand::Next => r is SkipNext,
            PlaybackCommand::Prev => r is SkipPrevious,
        },
{
    match cmd {
        PlaybackCommand::Toggle => if is_playing {
            SessionAction::Pause
        } else {
            SessionAction::Play
        },
        PlaybackCommand::Next => SessionAction::SkipNext,
        PlaybackCommand::Prev => SessionAction::SkipPrevious,
    }
}

/// What the poller learns of one media session.
pub struct SessionInfo {
    /// The app's user model id, when the session gives one.
    pub app_id: Option<String>,
    /// The session declares that it plays video.
    pub is_video: bool,
    /// The session reports that it is playing.
    pub is_playing: bool,
}

/// A session the island may follow: its app is allowed and it does not
/// play video.
pub open spec fn eligible(s: SessionInfo, allowed: Seq<Seq<char>>) -> bool {
    &&& s.app_id is Some
    &&& allowed.contains(s.app_id.unwrap()@)
    &&& !s.is_video
}

/// The first index in `from..` of an eligible session, playing if asked.
pub open spec fn first_eligible(sessions: Seq<SessionInfo>, allowed: Seq<Seq<char>>, playing: bool, from: int)
    -> Option<int>
    decreases sessions.len() - from,
{
    if from < 0 || from >= sessions.len() {
        None
    } else if eligible(sessions[from], allowed) && (!playing || sessions[from].is_playing) {
        Some(from)
    } else {
        first_eligible(sessions, allowed, playing, from + 1)
    }
}

/// The session the island follows.
pub enum SessionChoice {
    /// The session at this index of the list.
    Listed(usize),
    /// The session the system calls current.
    Current,
}

/// Which session to follow: none when no app is allowed; else the first
/// eligible listed session that plays, else the first eligible one, else
/// the system's current session when it is eligible.
pub open spec fn chosen_session(sessions: Seq<SessionInfo>, allowed: Seq<Seq<char>>, current: Option<SessionInfo>)
    -> Option<SessionChoice> {
    if allowed.len() == 0 {
        None
    } else if first_eligible(sessions, allowed, true, 0) is Some {
        Some(SessionChoice::Listed(first_eligible(sessions, allowed, true, 0).unwrap() as usize))
    } else if first_eligible(sessions, allowed, false, 0) is Some {
        Some(SessionChoice::Listed(first_eligible(sessions, allowed, false, 0).unwrap() as usize))
    } else {
        match current {
            Some(c) => if eligible(c, allowed) {
                Some(SessionChoice::Current)
            } else {
                None
            },
            None => None,
        }
    }
}

/// An index that `first_eligible` finds is in range, at or after `from`,
/// and names an eligible session (a playing one when asked).
proof fn lemma_first_eligible(sessions: Seq<SessionInfo>, allowed: Seq<Seq<char>>, playing: bool, from: int)
    ensures
        first_eligible(sessions, allowed, playing, from) matches Some(i) ==> {
            &&& from <= i < sessions.len()
            &&& eligible(sessions[i], allowed)
            &&& (playing ==> sessions[i].is_playing)
        },
    decreases sessions.len() - from,
{
    if 0 <= from < sessions.len() {
        lemma_first_eligible(sessions, allowed, playing, from + 1);
    }
}

/// The island only ever follows a session of an allowed app that does not
/// play video, and a listed session it picks is in the list.
pub proof fn followed_session_is_allowed(sessions: Seq<SessionInfo>, allowed: Seq<Seq<char>>,
    current: Option<SessionInfo>)
    requires
        sessions.len() <= usize::MAX,
    ensures
        chosen_session(sessions, allowed, current) matches Some(SessionChoice::Listed(i)) ==> {
            &&& i < sessions.len()
            &&& eligible(sessions[i as int], allowed)
        },
        chosen_session(sessions, allowed, current) matches Some(SessionChoice::Current) ==> {
            &&& current is Some
            &&& eligible(current.unwrap(), allowed)
        },
        allowed.len() == 0 ==> chosen_session(sessions, allowed, current) is None,
{
    lemma_first_eligible(sessions, allowed, true, 0);
    lemma_first_eligible(sessions, allowed, false, 0);
}

/// `first_eligible` finds the first fitting index at or after `from`: it
/// finds none exactly when no session there fits, and none before the one
/// it finds fits.
proof fn lemma_first_eligible_first(sessions: Seq<SessionInfo>, allowed: Seq<Seq<char>>, playing: bool, from: int)
    requires
        0 <= from,
    ensures
        first_eligible(sessions, allowed, playing, from) is None <==> forall|j: int| from <= j < sessions.len()
            ==> !(eligible(#[trigger] sessions[j], allowed) && (!playing || sessions[j].is_playing)),
        first_eligible(sessions, allowed, playing, from) matches Some(i) ==> forall|j: int| from <= j < i
            ==> !(eligible(#[trigger] sessions[j], allowed) && (!playing || sessions[j].is_playing)),
    decreases sessions.len() - from,
{
    if from < sessions.len() {
        lemma_first_eligible_first(sessions, allowed, playing, from + 1);
    }
}

/// When an app is allowed and some listed session of it is eligible, the
/// island follows a listed session, never the system's current one: the
/// first eligible one that plays, or, when none plays, the first eligible
/// one.
pub proof fn listed_session_comes_first(sessions: Seq<SessionInfo>, allowed: Seq<Seq<char>>,
    current: Option<SessionInfo>, k: int)
    requires
        allowed.len() > 0,
        0 <= k < sessions.len() <= usize::MAX,
        eligible(sessions[k], allowed),
    ensures
        chosen_session(sessions, allowed, current) matches Some(SessionChoice::Listed(i)) && {
            &&& i < sessions.len()
            &&& eligible(sessions[i as int], allowed)
            &&& (exists|j: int| 0 <= j < sessions.len() && eligible(#[trigger] sessions[j], allowed)
                && sessions[j].is_playing) ==> sessions[i as int].is_playing
                && forall|j: int| 0 <= j < i ==> !(eligible(#[trigger] sessions[j], allowed) && sessions[j].is_playing)
            &&& !(exists|j: int| 0 <= j < sessions.len() && eligible(#[trigger] sessions[j], allowed)
                && sessions[j].is_playing) ==> forall|j: int| 0 <= j < i ==> !eligible(#[trigger] sessions[j], allowed)
        },
{
    lemma_first_eligible(sessions, allowed, true, 0);
    lemma_first_eligible(sessions, allowed, false, 0);
    lemma_first_eligible_first(sessions, allowed, true, 0);
    lemma_first_eligible_first(sessions, allowed, false, 0);
    assert(!(first_eligible(sessions, allowed, false, 0) is None)) by {
        assert(eligible(sessions[k], allowed) && (!false || sessions[k].is_playing));
    }
}

/// With no eligible listed session, the system's current session is
/// followed when it is eligible, and nothing otherwise.
pub proof fn current_session_as_last_resort(sessions: Seq<SessionInfo>, allowed: Seq<Seq<char>>,
    current: Option<SessionInfo>)
    requires
        allowed.len() > 0,
        forall|j: int| 0 <= j < sessions.len() ==> !eligible(#[trigger] sessions[j], allowed),
    ensures
        chosen_session(sessions, allowed, current) == if current matches Some(c) && eligible(c, allowed) {
            Some(SessionChoice::Current)
        } else {
            None::<SessionChoice>
        },
{
    lemma_first_eligible_first(sessions, allowed, true, 0);
    lemma_first_eligible_first(sessions, allowed, false, 0);
}

fn is_eligible(s: &SessionInfo, allowed: &Vec<String>) -> (r: bool)
    ensures
        r == eligible(*s, views(allowed@)),
{
    match &s.app_id {
        Some(id) => contains_string(allowed, id) && !s.is_video,
        None => false,
    }
}

/// Picks the session to follow, as `chosen_session` says.
pub fn target_session(sessions: &Vec<SessionInfo>, allowed: &Vec<String>, current: &Option<SessionInfo>)
    -> (r: Option<SessionChoice>)
    ensures
        r == chosen_session(sessions@, views(allowed@), *current),
{
    if allowed.len() == 0 {
        return None;
    }
    let ghost al = views(allowed@);
    let mut first: Option<usize> = None;
    let mut i: usize = 0;
    while i < sessions.len()
        invariant
            i <= sessions@.len(),
            al == views(allowed@),
            first_eligible(sessions@, al, true, 0) == first_eligible(sessions@, al, true, i as int),
            first_eligible(sessions@, al, false, 0) == match first {
                Some(k) => Some(k as int),
                None => first_eligible(sessions@, al, false, i as int),
            },
            first matches Some(k) ==> k < i,
        decreases sessions.len() - i,
    {
        let ok = is_eligible(&sessions[i], allowed);
        if ok && sessions[i].is_playing {
            return Some(SessionChoice::Listed(i));
        }
        if ok && first.is_none() {
            first = Some(i);
        }
        i = i + 1;
    }
    match first {
        Some(k) => Some(SessionChoice::Listed(k)),
        None => match current {
            Some(c) => if is_eligible(c, allowed) {
                Some(SessionChoice::Current)
            } else {
                None
            },
            None => None,
        },
    }
}

} // verus!
