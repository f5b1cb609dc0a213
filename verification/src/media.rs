//! Playback timeline decisions: the duration to show, where playback is
//! now, which lyric line is current, and when to take over the position
//! that the system media session reports.

use vstd::prelude::*;
use crate::lyrics::LyricLine;

verus! {

/// The track duration in milliseconds: the millisecond duration when
/// known, else the second duration, else 0.
pub fn effective_duration_ms(duration_ms: u64, duration_secs: u64) -> (r: u64)
    requires
        duration_ms == 0 ==> duration_secs * 1000 <= u64::MAX,
    ensures
        r == if duration_ms > 0 {
            duration_ms as int
        } else {
            duration_secs * 1000
        },
{
    if duration_ms > 0 {
        duration_ms
    } else if duration_secs > 0 {
        duration_secs * 1000
    } else {
        0
    }
}

/// The `i64` that a `u64` becomes under `as`.
pub open spec fn as_i64(v: u64) -> int {
    if v <= i64::MAX {
        v as int
    } else {
        v - 0x1_0000_0000_0000_0000
    }
}

/// The position extrapolated from the last report: it runs on with the
/// clock while playing (saturating at `u64::MAX`).
pub open spec fn extrapolated(position_ms: u64, is_playing: bool, elapsed_ms: u64) -> int {
    if is_playing {
        if position_ms + elapsed_ms <= u64::MAX {
            position_ms + elapsed_ms
        } else {
            u64::MAX as int
        }
    } else {
        position_ms as int
    }
}

/// The position at which to look up the current lyric: the extrapolated
/// position (read as an `i64`) plus the lyric delay, and at least 0.
pub open spec fn lyric_position(position_ms: u64, is_playing: bool, elapsed_ms: u64, delay_ms: i64) -> int {
    let p = as_i64(extrapolated(position_ms, is_playing, elapsed_ms) as u64) + delay_ms;
    if p < 0 {
        0
    } else {
        p
    }
}

/// Computes `lyric_position`; the delayed position must fit in an `i64`.
pub fn current_position(position_ms: u64, is_playing: bool, elapsed_ms: u64, delay_ms: i64) -> (r: u64)
    requires
        i64::MIN <= as_i64(extrapolated(position_ms, is_playing, elapsed_ms) as u64) + delay_ms <= i64::MAX,
    ensures
        r == lyric_position(position_ms, is_playing, elapsed_ms, delay_ms),
{
    let raw: u64 = if is_playing { position_ms.saturating_add(elapsed_ms) } else { position_ms };
    let signed: i64 = if raw <= 0x7fff_ffff_ffff_ffff {
        raw as i64
    } else {
        let m = u64::MAX - raw;
        (-1i64) - (m as i64)
    };
    let p: i64 = signed + delay_ms;
    if p < 0 {
        0
    } else {
        p as u64
    }
}

/// Lyric lines in strictly increasing time.
pub open spec fn strictly_timed(lyrics: Seq<LyricLine>) -> bool {
    forall|i: int, j: int| 0 <= i < j < lyrics.len() ==> lyrics[i].time_ms < lyrics[j].time_ms
}

/// The text of the last lyric line that starts at or before `pos`: for
/// lines in strictly increasing time, exactly that; for any lines, some
/// line that starts at or before `pos`, or none.
pub fn lyric_at(lyrics: &Vec<LyricLine>, pos: u64) -> (r: Option<String>)
    ensures
        match r {
            Some(t) => exists|i: int| 0 <= i < lyrics@.len() && lyrics@[i].time_ms <= pos && #[trigger] lyrics@[i].text@
                == t@ && (strictly_timed(lyrics@) ==> (i == lyrics@.len() - 1 || lyrics@[i + 1].time_ms > pos)),
            None => strictly_timed(lyrics@) ==> forall|i: int| 0 <= i < lyrics@.len() ==> lyrics@[i].time_ms > pos,
        },
{
    let mut lo: usize = 0;
    let mut hi: usize = lyrics.len();
    while lo < hi
        invariant
            lo <= hi <= lyrics@.len(),
            lo > 0 ==> lyrics@[lo - 1].time_ms <= pos,
            strictly_timed(lyrics@) ==> forall|i: int| 0 <= i < lo ==> lyrics@[i].time_ms <= pos,
            strictly_timed(lyrics@) ==> forall|i: int| hi <= i < lyrics@.len() ==> lyrics@[i].time_ms > pos,
        decreases hi - lo,
    {
        let mid = lo + (hi - lo) / 2;
        if lyrics[mid].time_ms <= pos {
            lo = mid + 1;
        } else {
            hi = mid;
        }
    }
    if lo == 0 {
        None
    } else {
        let t = lyrics[lo - 1].text.clone();
        assert(lyrics@[lo - 1].text@ == t@);
        Some(t)
    }
}

/// The index of the line the lyric page centres on: the last line that
/// starts at or before `pos` (for lines in strictly increasing time), or the
/// first line when none has started yet.
pub fn line_index_at(lyrics: &Vec<LyricLine>, pos: u64) -> (r: usize)
    requires
        lyrics@.len() > 0,
    ensures
        r < lyrics@.len(),
        strictly_timed(lyrics@) ==> (if lyrics@[0].time_ms > pos {
            r == 0
        } else {
            lyrics@[r as int].time_ms <= pos && (r == lyrics@.len() - 1 || lyrics@[r + 1].time_ms > pos)
        }),
{
    let mut lo: usize = 0;
    let mut hi: usize = lyrics.len();
    while lo < hi
        invariant
            lo <= hi <= lyrics@.len(),
            lo > 0 ==> lyrics@[lo - 1].time_ms <= pos,
            strictly_timed(lyrics@) ==> forall|i: int| 0 <= i < lo ==> lyrics@[i].time_ms <= pos,
            strictly_timed(lyrics@) ==> forall|i: int| hi <= i < lyrics@.len() ==> lyrics@[i].time_ms > pos,
        decreases hi - lo,
    {
        let mid = lo + (hi - lo) / 2;
        if lyrics[mid].time_ms <= pos {
            lo = mid + 1;
        } else {
            hi = mid;
        }
    }
    if lo == 0 {
        0
    } else {
        lo - 1
    }
}

/// The current lyric line for a track's lyrics and timeline, if any.
pub fn current_lyric(lyrics: &Option<Vec<LyricLine>>, position_ms: u64, is_playing: bool, elapsed_ms: u64,
    delay_ms: i64) -> (r: Option<String>)
    requires
        i64::MIN <= as_i64(extrapolated(position_ms, is_playing, elapsed_ms) as u64) + delay_ms <= i64::MAX,
    ensures
        match lyrics {
            None => r is None,
            Some(ls) => {
                let pos = lyric_position(position_ms, is_playing, elapsed_ms, delay_ms);
                &&& ls@.len() == 0 ==> r is None
                &&& strictly_timed(ls@) ==> match r {
                    Some(t) => exists|i: int| 0 <= i < ls@.len() && ls@[i].time_ms <= pos && #[trigger] ls@[i].text@
                        == t@ && (i == ls@.len() - 1 || ls@[i + 1].time_ms > pos),
                    None => forall|i: int| 0 <= i < ls@.len() ==> ls@[i].time_ms > pos,
                }
            },
        },
{
    match lyrics {
        None => None,
        Some(ls) => {
            if ls.len() == 0 {
                return None;
            }
            let pos = current_position(position_ms, is_playing, elapsed_ms, delay_ms);
            lyric_at(ls, pos)
        },
    }
}

/// The playback timeline as the island keeps it.
pub struct Timeline {
    pub position_ms: u64,
    pub last_smtc_pos: u64,
    pub is_playing: bool,
}

/// Whether a new report from the media session takes over the timeline:
/// on a new song, on a play/pause change, when the session reports a
/// position while ours is 0, or when the reported position changed and
/// either differs by more than two seconds from our extrapolation or
/// playback is paused.
pub open spec fn takes_over(old: Timeline, song_changed: bool, smtc_pos: u64, is_playing: bool, elapsed_ms: u64) -> bool {
    let cur = extrapolated(old.position_ms, old.is_playing, elapsed_ms);
    let diff = if smtc_pos >= cur { smtc_pos - cur } else { cur - smtc_pos };
    ||| song_changed
    ||| old.is_playing != is_playing
    ||| (smtc_pos > 0 && old.position_ms == 0)
    ||| (smtc_pos != old.last_smtc_pos && (diff > 2000 || !is_playing))
}

/// Merges a media session report into the timeline. `elapsed_ms` is the
/// time since the timeline's clock was last reset; the second result says
/// whether the clock is reset now. A new song takes the reported position
/// only when it is not 0.
pub fn sync_timeline(old: &Timeline, song_changed: bool, smtc_pos: u64, is_playing: bool, elapsed_ms: u64)
    -> (r: (Timeline, bool))
    requires
        smtc_pos <= i64::MAX,
        extrapolated(old.position_ms, old.is_playing, elapsed_ms) <= i64::MAX,
    ensures
        r.0.last_smtc_pos == smtc_pos,
        r.0.is_playing == is_playing,
        song_changed ==> r.1 && r.0.position_ms == (if smtc_pos > 0 { smtc_pos } else { old.position_ms }),
        !song_changed ==> r.1 == takes_over(*old, false, smtc_pos, is_playing, elapsed_ms)
            && r.0.position_ms == (if r.1 { smtc_pos } else { old.position_ms }),
{
    if song_changed {
        let position = if smtc_pos > 0 { smtc_pos } else { old.position_ms };
        return (Timeline { position_ms: position, last_smtc_pos: smtc_pos, is_playing }, true);
    }
    let cur: u64 = if old.is_playing { old.position_ms.saturating_add(elapsed_ms) } else { old.position_ms };
    let smtc_changed = smtc_pos != old.last_smtc_pos;
    let diff: u64 = if smtc_pos >= cur { smtc_pos - cur } else { cur - smtc_pos };
    let sync = old.is_playing != is_playing || (smtc_pos > 0 && old.position_ms == 0) || (smtc_changed && (diff
        > 2000 || !is_playing));
    let position = if sync { smtc_pos } else { old.position_ms };
    (Timeline { position_ms: position, last_smtc_pos: smtc_pos, is_playing }, sync)
}

/// While playback stays paused, every new position the media session
/// reports is taken at once, however far it is from the shown one: a seek
/// made while paused shows immediately.
pub proof fn paused_seek_is_taken(old: Timeline, smtc_pos: u64, elapsed_ms: u64)
    requires
        !old.is_playing,
        smtc_pos != old.last_smtc_pos,
    ensures
        takes_over(old, false, smtc_pos, false, elapsed_ms),
{
}

/// A switch between playing and paused always takes the reported position.
pub proof fn play_state_change_is_taken(old: Timeline, smtc_pos: u64, is_playing: bool, elapsed_ms: u64)
    requires
        old.is_playing != is_playing,
    ensures
        takes_over(old, false, smtc_pos, is_playing, elapsed_ms),
{
}

/// While playing, a new reported position more than two seconds away from
/// the position the clock has carried ours to is taken; one within two
/// seconds of it is not (unless ours is still 0), so the shown position runs
/// on smoothly.
pub proof fn playing_report_taken_when_far(old: Timeline, smtc_pos: u64, elapsed_ms: u64)
    requires
        old.is_playing,
        smtc_pos != old.last_smtc_pos,
        old.position_ms > 0,
        old.position_ms + elapsed_ms <= u64::MAX,
    ensures
        (smtc_pos > old.position_ms + elapsed_ms + 2000 || smtc_pos + 2000 < old.position_ms + elapsed_ms)
            ==> takes_over(old, false, smtc_pos, true, elapsed_ms),
        (old.position_ms + elapsed_ms <= smtc_pos + 2000 && smtc_pos <= old.position_ms + elapsed_ms + 2000)
            ==> !takes_over(old, false, smtc_pos, true, elapsed_ms),
{
}

/// A report that repeats the last reported position, in the same play
/// state, leaves a non-zero timeline alone.
pub proof fn repeated_report_is_ignored(old: Timeline, elapsed_ms: u64)
    requires
        old.position_ms > 0,
    ensures
        !takes_over(old, false, old.last_smtc_pos, old.is_playing, elapsed_ms),
{
}

/// A timeline still at 0 takes the first non-zero position reported.
pub proof fn first_position_is_taken(old: Timeline, smtc_pos: u64, is_playing: bool, elapsed_ms: u64)
    requires
        old.position_ms == 0,
        smtc_pos > 0,
    ensures
        takes_over(old, false, smtc_pos, is_playing, elapsed_ms),
{
}

/// The lyric position runs on with the clock while playing and stands
/// still while paused, shifted by the lyric delay, and never below 0.
pub proof fn lyric_position_follows_clock(position_ms: u64, elapsed_ms: u64, delay_ms: i64)
    requires
        position_ms + elapsed_ms <= i64::MAX,
    ensures
        lyric_position(position_ms, true, elapsed_ms, delay_ms) == if position_ms + elapsed_ms + delay_ms < 0 {
            0
        } else {
            position_ms + elapsed_ms + delay_ms
        },
        lyric_position(position_ms, false, elapsed_ms, delay_ms) == if position_ms + delay_ms < 0 {
            0
        } else {
            position_ms + delay_ms
        },
{
}

} // verus!
