//! Configuration values: the island's dock position, the defaults that a
//! configuration file may leave out, and the bookkeeping of media apps
//! that the island learns about.

use vstd::prelude::*;
use crate::text::{chars_of, owned};
use crate::lyrics::chars_equal;

verus! {

pub const APP_VERSION: &'static str = "1.0.0";
pub const APP_AUTHOR: &'static str = "xiaoxiaoguai";
pub const APP_HOMEPAGE: &'static str = "https://github.com/xiaoxiaoguai/MyIsland";
pub const WINDOW_TITLE: &'static str = "MyIsland";
pub const TOP_OFFSET: i32 = 10;

/// Where on the screen the island docks.
#[derive(Clone, Copy, Debug, PartialEq, Eq, Structural)]
pub enum DockPosition {
    TopCenter,
    TopLeft,
    TopRight,
    BottomCenter,
    BottomLeft,
    BottomRight,
}

/// The configuration name of a dock position.
pub open spec fn dock_name(p: DockPosition) -> Seq<char> {
    match p {
        DockPosition::TopCenter => "top_center"@,
        DockPosition::TopLeft => "top_left"@,
        DockPosition::TopRight => "top_right"@,
        DockPosition::BottomCenter => "bottom_center"@,
        DockPosition::BottomLeft => "bottom_left"@,
        DockPosition::BottomRight => "bottom_right"@,
    }
}

/// The dock position a configuration name stands for, if any.
pub open spec fn parse_dock(s: Seq<char>) -> Option<DockPosition> {
    if s == "top_center"@ {
        Some(DockPosition::TopCenter)
    } else if s == "top_left"@ {
        Some(DockPosition::TopLeft)
    } else if s == "top_right"@ {
        Some(DockPosition::TopRight)
    } else if s == "bottom_center"@ {
        Some(DockPosition::BottomCenter)
    } else if s == "bottom_left"@ {
        Some(DockPosition::BottomLeft)
    } else if s == "bottom_right"@ {
        Some(DockPosition::BottomRight)
    } else {
        None
    }
}

impl DockPosition {
    /// Docked along the bottom edge.
    pub fn is_bottom(&self) -> (r: bool)
        ensures
            r == (*self == DockPosition::BottomCenter || *self == DockPosition::BottomLeft || *self
                == DockPosition::BottomRight),
    {
        match self {
            DockPosition::BottomCenter | DockPosition::BottomLeft | DockPosition::BottomRight => true,
            _ => false,
        }
    }

    /// Docked at the left.
    pub fn is_left(&self) -> (r: bool)
        ensures
            r == (*self == DockPosition::TopLeft || *self == DockPosition::BottomLeft),
    {
        match self {
            DockPosition::TopLeft | DockPosition::BottomLeft => true,
            _ => false,
        }
    }

    /// Docked at the right.
    pub fn is_right(&self) -> (r: bool)
        ensures
            r == (*self == DockPosition::TopRight || *self == DockPosition::BottomRight),
    {
        match self {
            DockPosition::TopRight | DockPosition::BottomRight => true,
            _ => false,
        }
    }

    /// The configuration name of the position.
    pub fn as_str(&self) -> (r: &'static str)
        ensures
            r@ == dock_name(*self),
    {
        match self {
            DockPosition::TopCenter => "top_center",
            DockPosition::TopLeft => "top_left",
            DockPosition::TopRight => "top_right",
            DockPosition::BottomCenter => "bottom_center",
            DockPosition::BottomLeft => "bottom_left",
            DockPosition::BottomRight => "bottom_right",
        }
    }

    /// The position a configuration name stands for; `Err(())` for any other text.
    pub fn parse(s: &str) -> (r: Result<DockPosition, ()>)
        ensures
            match parse_dock(s@) {
                Some(p) => r == Ok::<DockPosition, ()>(p),
                None => r is Err,
            },
    {
        let cs = chars_of(s);
        if chars_equal(&cs, &chars_of("top_center")) {
            Ok(DockPosition::TopCenter)
        } else if chars_equal(&cs, &chars_of("top_left")) {
            Ok(DockPosition::TopLeft)
        } else if chars_equal(&cs, &chars_of("top_right")) {
            Ok(DockPosition::TopRight)
        } else if chars_equal(&cs, &chars_of("bottom_center")) {
            Ok(DockPosition::BottomCenter)
        } else if chars_equal(&cs, &chars_of("bottom_left")) {
            Ok(DockPosition::BottomLeft)
        } else if chars_equal(&cs, &chars_of("bottom_right")) {
            Ok(DockPosition::BottomRight)
        } else {
            Err(())
        }
    }

    /// The position a configuration text names, or the default position
    /// for any other text.
    pub fn from_string(value: String) -> (r: DockPosition)
        ensures
            r == match parse_dock(value@) {
                Some(p) => p,
                None => DockPosition::TopCenter,
            },
    {
        match DockPosition::parse(value.as_str()) {
            Ok(p) => p,
            Err(()) => DockPosition::TopCenter,
        }
    }
}

impl Default for DockPosition {
    fn default() -> (r: DockPosition)
        ensures
            r == DockPosition::TopCenter,
    {
        DockPosition::TopCenter
    }
}

impl std::str::FromStr for DockPosition {
    type Err = ();

    fn from_str(s: &str) -> (r: Result<DockPosition, ()>)
        ensures
            match parse_dock(s@) {
                Some(p) => r == Ok::<DockPosition, ()>(p),
                None => r is Err,
            },
    {
        DockPosition::parse(s)
    }
}

/// Every dock position reads back from its own configuration name.
pub proof fn dock_name_round_trip(p: DockPosition)
    ensures
        parse_dock(dock_name(p)) == Some(p),
{
    reveal_strlit("top_center");
    reveal_strlit("top_left");
    reveal_strlit("top_right");
    reveal_strlit("bottom_center");
    reveal_strlit("bottom_left");
    reveal_strlit("bottom_right");
    assert("top_center"@.len() == 10);
    assert("top_left"@.len() == 8);
    assert("top_right"@.len() == 9);
    assert("bottom_center"@.len() == 13);
    assert("bottom_left"@.len() == 11);
    assert("bottom_right"@.len() == 12);
}

} // verus!

verus! {

/// Default island style.
pub fn default_island_style() -> (r: String)
    ensures
        r@ == "default"@,
{
    owned("default")
}

/// Lyrics are shown by default.
pub fn default_show_lyrics() -> (r: bool)
    ensures
        r,
{
    true
}

/// No media apps are known at first.
pub fn default_smtc_known_apps() -> (r: Vec<String>)
    ensures
        r@.len() == 0,
{
    Vec::new()
}

/// No custom font by default.
pub fn default_custom_font() -> (r: Option<String>)
    ensures
        r is None,
{
    None
}

/// No local lyrics directory by default.
pub fn default_lyrics_local_dir() -> (r: Option<String>)
    ensures
        r is None,
{
    None
}

/// The island does not start with the system by default.
pub fn default_auto_start() -> (r: bool)
    ensures
        !r,
{
    false
}

/// The island does not hide itself by default.
pub fn default_auto_hide() -> (r: bool)
    ensures
        !r,
{
    false
}

/// The language follows the system by default.
pub fn default_language() -> (r: String)
    ensures
        r@ == "auto"@,
{
    owned("auto")
}

/// NetEase Cloud Music is the default lyrics source.
pub fn default_lyrics_source() -> (r: String)
    ensures
        r@ == "163"@,
{
    owned("163")
}

/// The other lyrics source is tried by default when the first finds nothing.
pub fn default_lyrics_fallback() -> (r: bool)
    ensures
        r,
{
    true
}

/// Long lyric lines do not scroll by default.
pub fn default_lyrics_scroll() -> (r: bool)
    ensures
        !r,
{
    false
}

pub fn default_position_x_offset() -> (r: i32)
    ensures
        r == 0,
{
    0
}

pub fn default_position_y_offset() -> (r: i32)
    ensures
        r == 0,
{
    0
}

pub fn default_dock_position() -> (r: DockPosition)
    ensures
        r == DockPosition::TopCenter,
{
    DockPosition::TopCenter
}

pub fn default_monitor_index() -> (r: i32)
    ensures
        r == 0,
{
    0
}

/// The settings window follows the system theme by default.
pub fn default_settings_theme() -> (r: String)
    ensures
        r@ == "system"@,
{
    owned("system")
}

pub fn default_mini_cover_shape() -> (r: String)
    ensures
        r@ == "square"@,
{
    owned("square")
}

pub fn default_expanded_cover_shape() -> (r: String)
    ensures
        r@ == "square"@,
{
    owned("square")
}

pub fn default_cover_rotate() -> (r: bool)
    ensures
        !r,
{
    false
}

pub fn default_audio_gate() -> (r: bool)
    ensures
        r,
{
    true
}

pub fn default_auto_gate() -> (r: bool)
    ensures
        r,
{
    true
}

pub fn default_mini_controls() -> (r: bool)
    ensures
        !r,
{
    false
}

/// A configuration file without the field leaves the water reminder off:
/// the user turns it on in the settings.
pub fn default_water_reminder_enabled() -> (r: bool)
    ensures
        !r,
{
    false
}

/// A configuration file without the field reminds every 30 minutes.
pub fn default_water_reminder_interval() -> (r: u32)
    ensures
        r == 30,
{
    30
}

pub fn default_water_reminder_start() -> (r: u32)
    ensures
        r == 9,
{
    9
}

pub fn default_water_reminder_end() -> (r: u32)
    ensures
        r == 22,
{
    22
}

pub open spec fn views(v: Seq<String>) -> Seq<Seq<char>> {
    v.map_values(|s: String| s@)
}

/// What learning one media app does to the known apps, the allowed apps
/// of the configuration and the apps allowed right now: an app seen for
/// the first time becomes known; on a first run (no app known yet) it is
/// also allowed.
pub open spec fn learn_app(
    known: Seq<Seq<char>>,
    apps: Seq<Seq<char>>,
    allowed: Seq<Seq<char>>,
    id: Seq<char>,
) -> (Seq<Seq<char>>, Seq<Seq<char>>, Seq<Seq<char>>, bool) {
    if known.contains(id) {
        (known, apps, allowed, false)
    } else if known.len() == 0 && !apps.contains(id) {
        (known.push(id), apps.push(id), if allowed.contains(id) { allowed } else { allowed.push(id) }, true)
    } else {
        (known.push(id), apps, allowed, true)
    }
}

/// Learning the apps `ids` one after the other; the flag says whether any
/// of them was new.
pub open spec fn learn_apps(
    known: Seq<Seq<char>>,
    apps: Seq<Seq<char>>,
    allowed: Seq<Seq<char>>,
    ids: Seq<Seq<char>>,
) -> (Seq<Seq<char>>, Seq<Seq<char>>, Seq<Seq<char>>, bool)
    decreases ids.len(),
{
    if ids.len() == 0 {
        (known, apps, allowed, false)
    } else {
        let st = learn_apps(known, apps, allowed, ids.drop_last());
        let nx = learn_app(st.0, st.1, st.2, ids.last());
        (nx.0, nx.1, nx.2, st.3 || nx.3)
    }
}

/// Whether `v` holds a string equal to `s`.
pub fn contains_string(v: &Vec<String>, s: &String) -> (r: bool)
    ensures
        r == views(v@).contains(s@),
{
    let mut i: usize = 0;
    while i < v.len()
        invariant
            i <= v@.len(),
            forall|j: int| 0 <= j < i ==> v@[j]@ != s@,
        decreases v.len() - i,
    {
        if v[i] == *s {
            assert(views(v@)[i as int] == s@);
            return true;
        }
        i = i + 1;
    }
    proof {
        if views(v@).contains(s@) {
            let j = choose|j: int| 0 <= j < views(v@).len() && views(v@)[j] == s@;
            assert(v@[j]@ == s@);
        }
    }
    false
}

/// Appends `s` to `v` unless `v` already holds it.
pub fn push_unique(v: &mut Vec<String>, s: String)
    ensures
        views(final(v)@) == if views(old(v)@).contains(s@) {
            views(old(v)@)
        } else {
            views(old(v)@).push(s@)
        },
{
    if !contains_string(v, &s) {
        let ghost before = v@;
        v.push(s);
        assert(views(v@) =~= views(before).push(s@));
    }
}

/// Learns the media apps `new_ids` into the configuration's known apps
/// and allowed apps; gives the apps allowed from now on, which start from
/// `allowed`, and whether the configuration changed.
pub fn learn_new_apps(
    known: &mut Vec<String>,
    apps: &mut Vec<String>,
    allowed: &Vec<String>,
    new_ids: &Vec<String>,
) -> (r: (Vec<String>, bool))
    ensures
        ({
            let st = learn_apps(views(old(known)@), views(old(apps)@), views(allowed@), views(new_ids@));
            &&& views(final(known)@) == st.0
            &&& views(final(apps)@) == st.1
            &&& views(r.0@) == st.2
            &&& r.1 == st.3
        }),
{
    let mut now_allowed: Vec<String> = Vec::new();
    let mut k: usize = 0;
    while k < allowed.len()
        invariant
            k <= allowed@.len(),
            views(now_allowed@) == views(allowed@).take(k as int),
        decreases allowed.len() - k,
    {
        now_allowed.push(allowed[k].clone());
        assert(views(allowed@).take(k + 1) =~= views(allowed@).take(k as int).push(allowed@[k as int]@));
        assert(views(now_allowed@) =~= views(allowed@).take(k + 1));
        k = k + 1;
    }
    assert(views(allowed@).take(allowed@.len() as int) == views(allowed@));
    let ghost k0 = views(known@);
    let ghost a0 = views(apps@);
    let ghost ids = views(new_ids@);
    let mut changed = false;
    let mut i: usize = 0;
    assert(ids.take(0) =~= Seq::<Seq<char>>::empty());
    while i < new_ids.len()
        invariant
            i <= new_ids@.len(),
            ids == views(new_ids@),
            ({
                let st = learn_apps(k0, a0, views(allowed@), ids.take(i as int));
                &&& views(known@) == st.0
                &&& views(apps@) == st.1
                &&& views(now_allowed@) == st.2
                &&& changed == st.3
            }),
        decreases new_ids.len() - i,
    {
        assert(ids.take(i + 1).drop_last() =~= ids.take(i as int));
        assert(ids.take(i + 1).last() == new_ids@[i as int]@);
        let id = &new_ids[i];
        if !contains_string(known, id) {
            let first_run = known.len() == 0;
            let ghost kb = known@;
            known.push(id.clone());
            assert(views(known@) =~= views(kb).push(id@));
            if first_run && !contains_string(apps, id) {
                let ghost ab = apps@;
                apps.push(id.clone());
                assert(views(apps@) =~= views(ab).push(id@));
                push_unique(&mut now_allowed, id.clone());
            }
            changed = true;
        }
        i = i + 1;
    }
    assert(ids.take(new_ids@.len() as int) == ids);
    (now_allowed, changed)
}

/// Learning apps never forgets a known app nor withdraws an allowed one,
/// and once some app is known, learning more allows none.
pub proof fn learning_keeps_apps(
    known: Seq<Seq<char>>,
    apps: Seq<Seq<char>>,
    allowed: Seq<Seq<char>>,
    ids: Seq<Seq<char>>,
)
    ensures
        ({
            let st = learn_apps(known, apps, allowed, ids);
            &&& known.is_prefix_of(st.0)
            &&& apps.is_prefix_of(st.1)
            &&& allowed.is_prefix_of(st.2)
            &&& known.len() > 0 ==> st.1 == apps && st.2 == allowed
            &&& forall|i: int| 0 <= i < ids.len() ==> st.0.contains(#[trigger] ids[i])
        }),
    decreases ids.len(),
{
    if ids.len() > 0 {
        learning_keeps_apps(known, apps, allowed, ids.drop_last());
        let st = learn_apps(known, apps, allowed, ids.drop_last());
        let id = ids.last();
        let nx = learn_app(st.0, st.1, st.2, id);
        assert(st.0.is_prefix_of(nx.0));
        assert(st.1.is_prefix_of(nx.1));
        assert(st.2.is_prefix_of(nx.2));
        assert(nx.0.contains(id)) by {
            if !st.0.contains(id) {
                assert(nx.0[nx.0.len() - 1] == id);
            }
        }
        assert forall|i: int| 0 <= i < ids.len() implies nx.0.contains(#[trigger] ids[i]) by {
            if i < ids.len() - 1 {
                assert(ids.drop_last()[i] == ids[i]);
                assert(st.0.contains(ids[i]));
                let j = choose|j: int| 0 <= j < st.0.len() && st.0[j] == ids[i];
                assert(nx.0[j] == ids[i]);
            }
        }
        if known.len() > 0 {
            assert(st.0.len() >= known.len());
        }
    }
}

} // verus!
