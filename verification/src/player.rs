//! The expanded player's whole-number state: which play state the button
//! shows, how far the song has got, and the time labels beside the bar.

use vstd::prelude::*;
use crate::logger::{padded, push_padded};
use crate::media::extrapolated;
use crate::text::{decimal, decimal_chars, owned, push_char, push_str, same_text, string_of};

verus! {

/// The play state shown after a click on the play button, and whether the
/// click's guess is kept: it is dropped once the session agrees with it or
/// after two seconds.
pub open spec fn shown_play_state(session_playing: bool, guess: Option<(bool, u64)>) -> (bool, bool) {
    match guess {
        None => (session_playing, false),
        Some((playing, age_ms)) => if session_playing == playing || age_ms > 2000 {
            (session_playing, false)
        } else {
            (playing, true)
        },
    }
}

/// Decides the shown play state; `guess` is the state a click asked for and
/// the milliseconds since that click.
pub fn effective_playing(session_playing: bool, guess: Option<(bool, u64)>) -> (r: (bool, bool))
    ensures
        r == shown_play_state(session_playing, guess),
{
    match guess {
        None => (session_playing, false),
        Some((playing, age_ms)) => if session_playing == playing || age_ms > 2000 {
            (session_playing, false)
        } else {
            (playing, true)
        },
    }
}

/// The position shown on the progress bar: the extrapolated position, but
/// not past the end of a song whose length is known.
pub fn shown_position(position_ms: u64, is_playing: bool, elapsed_ms: u64, duration_ms: u64) -> (r: u64)
    ensures
        r == (if duration_ms > 0 && extrapolated(position_ms, is_playing, elapsed_ms) > duration_ms {
            duration_ms as int
        } else {
            extrapolated(position_ms, is_playing, elapsed_ms)
        }),
{
    let p = if is_playing { position_ms.saturating_add(elapsed_ms) } else { position_ms };
    if duration_ms > 0 && p > duration_ms {
        duration_ms
    } else {
        p
    }
}

/// A number of seconds as `m:ss`.
pub open spec fn clock(secs: u32) -> Seq<char> {
    decimal((secs / 60) as nat) + ":"@ + padded((secs % 60) as int, 2)
}

fn push_clock(out: &mut String, secs: u32)
    ensures
        final(out)@ == old(out)@ + clock(secs),
{
    let ghost start = out@;
    let minutes = string_of(&decimal_chars((secs / 60) as u64));
    push_str(out, minutes.as_str());
    push_char(out, ':');
    push_padded(out, false, (secs % 60) as u64, 2);
    proof {
        reveal_strlit(":");
        assert(out@ =~= start + clock(secs));
    }
}

/// The label left of the progress bar: the time played, in whole seconds
/// taken as a `u32`.
pub fn elapsed_label(position_ms: u64) -> (r: String)
    ensures
        r@ == clock((position_ms / 1000) as u32),
{
    let mut out = String::new();
    push_clock(&mut out, (position_ms / 1000) as u32);
    out
}

/// The label right of the progress bar: the time left as `-m:ss`, or
/// `--:--` while the song's length is unknown.
pub fn remaining_label(position_ms: u64, duration_ms: u64) -> (r: String)
    ensures
        r@ == (if duration_ms > 0 {
            "-"@ + clock((((if duration_ms > position_ms { duration_ms - position_ms } else { 0 }) / 1000)) as u32)
        } else {
            "--:--"@
        }),
{
    if duration_ms > 0 {
        let mut out = owned("-");
        push_clock(&mut out, (duration_ms.saturating_sub(position_ms) / 1000) as u32);
        out
    } else {
        owned("--:--")
    }
}

/// How the cover turns: whether it is drawn turned at all (rotation on and a
/// circular cover) and whether its angle advances now (also shown as
/// playing).
pub fn cover_rotation(rotate_setting: bool, cover_shape: &str, shown_playing: bool) -> (r: (bool, bool))
    ensures
        r.0 == (rotate_setting && cover_shape@ == "circle"@),
        r.1 == (rotate_setting && cover_shape@ == "circle"@ && shown_playing),
{
    let turned = rotate_setting && same_text(cover_shape, "circle");
    (turned, turned && shown_playing)
}

} // verus!
