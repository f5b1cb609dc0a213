//! The settings window's whole-number steppers and the option lists of its
//! pop-up menus.

use vstd::prelude::*;
use crate::config::{contains_string, push_unique, views, DockPosition};
use crate::text::{all_digits, chars_of, decimal, decimal_chars, digits_value, parse_u64, push_str, same_text, string_of};

verus! {

/// The water reminder interval after a click on its stepper: five minutes
/// less, but at least five; or five minutes more, but at most two hours.
pub open spec fn water_interval_after(minutes: int, decrease: bool) -> int {
    if decrease {
        if minutes < 10 { 5 } else { minutes - 5 }
    } else {
        if minutes + 5 > 120 { 120 } else { minutes + 5 }
    }
}

/// The hour the reminder starts after a click: one earlier, not below 0;
/// or one later, not past 23.
pub open spec fn start_hour_after(hour: int, decrease: bool) -> int {
    if decrease {
        if hour <= 0 { 0 } else { hour - 1 }
    } else {
        if hour + 1 > 23 { 23 } else { hour + 1 }
    }
}

/// The hour the reminder ends after a click: one earlier, not below 0; or
/// one later, not past 24.
pub open spec fn end_hour_after(hour: int, decrease: bool) -> int {
    if decrease {
        if hour <= 1 { 0 } else { hour - 1 }
    } else {
        if hour + 1 > 24 { 24 } else { hour + 1 }
    }
}

/// A click on a reminder stepper keeps its value in the range the settings
/// offer: the interval within 5 to 120 minutes, the start hour within 0 to
/// 23 and the end hour within 0 to 24, once it is there.
pub proof fn steppers_stay_in_range(minutes: int, start: int, end: int, decrease: bool)
    requires
        5 <= minutes <= 120,
        0 <= start <= 23,
        0 <= end <= 24,
    ensures
        5 <= water_interval_after(minutes, decrease) <= 120,
        0 <= start_hour_after(start, decrease) <= 23,
        0 <= end_hour_after(end, decrease) <= 24,
{
}

/// Steps the water reminder interval.
pub fn step_water_interval(minutes: u32, decrease: bool) -> (r: u32)
    requires
        !decrease ==> minutes + 5 <= u32::MAX,
    ensures
        r == water_interval_after(minutes as int, decrease),
{
    if decrease {
        let m = if minutes > 5 { minutes } else { 5 };
        let d = m - 5;
        if d > 5 { d } else { 5 }
    } else {
        let u = minutes + 5;
        if u < 120 { u } else { 120 }
    }
}

/// Steps the hour the water reminder starts.
pub fn step_start_hour(hour: u32, decrease: bool) -> (r: u32)
    requires
        !decrease ==> hour < u32::MAX,
    ensures
        r == start_hour_after(hour as int, decrease),
{
    if decrease {
        hour.saturating_sub(1)
    } else {
        let u = hour + 1;
        if u < 23 { u } else { 23 }
    }
}

/// Steps the hour the water reminder ends.
pub fn step_end_hour(hour: u32, decrease: bool) -> (r: u32)
    requires
        !decrease ==> hour < u32::MAX,
    ensures
        r == end_hour_after(hour as int, decrease),
{
    if decrease {
        let h = if hour > 1 { hour } else { 1 };
        h.saturating_sub(1)
    } else {
        let u = hour + 1;
        if u < 24 { u } else { 24 }
    }
}

/// A window offset after a click on its stepper: five pixels less or more.
pub fn step_offset(offset: i32, decrease: bool) -> (r: i32)
    requires
        decrease ==> offset - 5 >= i32::MIN,
        !decrease ==> offset + 5 <= i32::MAX,
    ensures
        r == (if decrease { offset - 5 } else { offset + 5 }),
{
    if decrease {
        offset - 5
    } else {
        offset + 5
    }
}

/// The entry of the island style menu (default, mica, dynamic) that shows
/// as chosen.
pub fn island_style_index(style: &str) -> (r: usize)
    ensures
        r == (if style@ == "mica"@ {
            1usize
        } else if style@ == "dynamic"@ {
            2usize
        } else {
            0usize
        }),
{
    if same_text(style, "mica") {
        1
    } else if same_text(style, "dynamic") {
        2
    } else {
        0
    }
}

/// The entry of the dock position menu that shows as chosen: the menu lists
/// the positions top centre, top left, top right, then the bottom ones.
pub fn dock_position_index(dp: DockPosition) -> (r: usize)
    ensures
        r == match dp {
            DockPosition::TopCenter => 0usize,
            DockPosition::TopLeft => 1usize,
            DockPosition::TopRight => 2usize,
            DockPosition::BottomCenter => 3usize,
            DockPosition::BottomLeft => 4usize,
            DockPosition::BottomRight => 5usize,
        },
{
    match dp {
        DockPosition::TopCenter => 0,
        DockPosition::TopLeft => 1,
        DockPosition::TopRight => 2,
        DockPosition::BottomCenter => 3,
        DockPosition::BottomLeft => 4,
        DockPosition::BottomRight => 5,
    }
}

/// The entry of the theme menu (system, light, dark) that shows as chosen.
pub fn settings_theme_index(theme: &str) -> (r: usize)
    ensures
        r == (if theme@ == "light"@ {
            1usize
        } else if theme@ == "dark"@ {
            2usize
        } else {
            0usize
        }),
{
    if same_text(theme, "light") {
        1
    } else if same_text(theme, "dark") {
        2
    } else {
        0
    }
}

/// The entry of a cover shape menu (square, circle) that shows as chosen.
pub fn cover_shape_index(shape: &str) -> (r: usize)
    ensures
        r == (if shape@ == "circle"@ { 1usize } else { 0usize }),
{
    if same_text(shape, "circle") {
        1
    } else {
        0
    }
}

/// The entry of the language menu (English, Chinese) that shows as chosen.
pub fn language_index(lang: &str) -> (r: usize)
    ensures
        r == (if lang@ == "zh"@ { 1usize } else { 0usize }),
{
    if same_text(lang, "zh") {
        1
    } else {
        0
    }
}

/// The entry of the monitor menu that shows as chosen: the configured
/// index, taken as unsigned, but never past the last monitor.
pub fn monitor_menu_index(monitor_index: i32, monitors: usize) -> (r: usize)
    ensures
        r == (if (monitor_index as usize) < (if monitors == 0 { 0 } else { monitors - 1 }) {
            monitor_index as usize
        } else {
            (if monitors == 0 { 0usize } else { (monitors - 1) as usize })
        }),
{
    let last = monitors.saturating_sub(1);
    let idx = monitor_index as usize;
    if idx < last {
        idx
    } else {
        last
    }
}

/// What `str::parse::<i32>` gives: an optional sign, then one or more ASCII
/// digits whose signed value fits in an `i32`; anything else is an error.
pub open spec fn parse_i32_spec(s: Seq<char>) -> Option<i32> {
    let neg = s.len() > 0 && s[0] == '-';
    let d = if s.len() > 0 && (s[0] == '-' || s[0] == '+') {
        s.drop_first()
    } else {
        s
    };
    let v: int = if neg { -(digits_value(d) as int) } else { digits_value(d) as int };
    if d.len() == 0 || !all_digits(d) || v < i32::MIN || v > i32::MAX {
        None
    } else {
        Some(v as i32)
    }
}

/// The monitor index a menu entry's value names; 0 when it is no number.
pub fn monitor_index_value(value: &str) -> (r: i32)
    ensures
        r == match parse_i32_spec(value@) {
            Some(v) => v,
            None => 0i32,
        },
{
    let cs = chars_of(value);
    let neg = cs.len() > 0 && cs[0] == '-';
    let start: usize = if cs.len() > 0 && (cs[0] == '-' || cs[0] == '+') { 1 } else { 0 };
    let ghost d = if cs@.len() > 0 && (cs@[0] == '-' || cs@[0] == '+') { cs@.drop_first() } else { cs@ };
    let mut digits: Vec<char> = Vec::new();
    let mut i: usize = start;
    while i < cs.len()
        invariant
            start <= i <= cs@.len(),
            cs@ == value@,
            d == (if cs@.len() > 0 && (cs@[0] == '-' || cs@[0] == '+') { cs@.drop_first() } else { cs@ }),
            d == cs@.subrange(start as int, cs@.len() as int),
            digits@ == cs@.subrange(start as int, i as int),
            forall|j: int| 0 <= j < digits@.len() ==> crate::text::is_digit(#[trigger] digits@[j]),
        decreases cs.len() - i,
    {
        if !('0' <= cs[i] && cs[i] <= '9') {
            assert(d[i - start] == cs@[i as int]);
            assert(!all_digits(d));
            return 0;
        }
        digits.push(cs[i]);
        assert(digits@ =~= cs@.subrange(start as int, i + 1));
        i = i + 1;
    }
    assert(digits@ == d);
    if digits.len() == 0 {
        return 0;
    }
    // All digits, so `parse_u64` reads their value, or finds it too large.
    assert(digits@[0] != '+');
    let n = match parse_u64(&digits) {
        Some(n) => n,
        None => {
            return 0;
        },
    };
    assert(digits@ == d);
    if neg {
        if n <= 2147483648 {
            (0i64 - n as i64) as i32
        } else {
            0
        }
    } else {
        if n <= 2147483647 {
            n as i32
        } else {
            0
        }
    }
}

/// The value shown beside a reminder hour stepper: the hour, then `:00`.
pub fn hour_label(hour: u32) -> (r: String)
    ensures
        r@ == decimal(hour as nat) + ":00"@,
{
    let mut out = string_of(&decimal_chars(hour as u64));
    push_str(&mut out, ":00");
    out
}

/// The entry of the lyrics source menu (163, LRCLIB) that shows as chosen.
pub fn lyrics_source_index(source: &str) -> (r: usize)
    ensures
        r == (if source@ == "163"@ { 0usize } else { 1usize }),
{
    if same_text(source, "163") {
        0
    } else {
        1
    }
}

/// `v` without any entry equal to `x`.
pub open spec fn without(v: Seq<Seq<char>>, x: Seq<char>) -> Seq<Seq<char>>
    decreases v.len(),
{
    if v.len() == 0 {
        v
    } else if v.last() == x {
        without(v.drop_last(), x)
    } else {
        without(v.drop_last(), x).push(v.last())
    }
}

/// The allowed apps and the known apps after a click on an app in the
/// media app list: an allowed app is no longer allowed; any other app is
/// allowed, and becomes known if it was not.
pub open spec fn toggled(apps: Seq<Seq<char>>, known: Seq<Seq<char>>, app: Seq<char>) -> (Seq<Seq<char>>, Seq<Seq<char>>) {
    if apps.contains(app) {
        (without(apps, app), known)
    } else {
        (apps.push(app), if known.contains(app) { known } else { known.push(app) })
    }
}

proof fn lemma_without_absent(v: Seq<Seq<char>>, x: Seq<char>)
    requires
        !v.contains(x),
    ensures
        without(v, x) == v,
    decreases v.len(),
{
    if v.len() > 0 {
        assert(!v.drop_last().contains(x)) by {
            if v.drop_last().contains(x) {
                let i = choose|i: int| 0 <= i < v.drop_last().len() && v.drop_last()[i] == x;
                assert(v[i] == x);
            }
        }
        lemma_without_absent(v.drop_last(), x);
        assert(v.last() != x) by {
            assert(v[v.len() - 1] == v.last());
        }
        assert(v.drop_last().push(v.last()) =~= v);
    }
}

proof fn lemma_without_drops(v: Seq<Seq<char>>, x: Seq<char>)
    ensures
        !without(v, x).contains(x),
    decreases v.len(),
{
    if v.len() > 0 {
        lemma_without_drops(v.drop_last(), x);
        let w = without(v.drop_last(), x);
        if v.last() != x {
            assert forall|i: int| 0 <= i < w.push(v.last()).len() implies w.push(v.last())[i] != x by {
                if i < w.len() {
                    assert(w.push(v.last())[i] == w[i]);
                }
            }
        }
    }
}

/// Clicking an app that is not allowed, then clicking it again, leaves the
/// allowed apps as they were; and a click on an allowed app removes it
/// entirely.
pub proof fn toggle_twice_restores(apps: Seq<Seq<char>>, known: Seq<Seq<char>>, app: Seq<char>)
    ensures
        !apps.contains(app) ==> toggled(toggled(apps, known, app).0, toggled(apps, known, app).1, app).0 == apps,
        apps.contains(app) ==> !toggled(apps, known, app).0.contains(app),
{
    if !apps.contains(app) {
        assert(apps.push(app).contains(app)) by {
            assert(apps.push(app)[apps.len() as int] == app);
        }
        assert(apps.push(app).drop_last() =~= apps);
        lemma_without_absent(apps, app);
    } else {
        lemma_without_drops(apps, app);
    }
}

fn remove_all(v: &Vec<String>, x: &String) -> (r: Vec<String>)
    ensures
        views(r@) == without(views(v@), x@),
{
    let mut out: Vec<String> = Vec::new();
    let mut i: usize = 0;
    assert(views(v@).take(0) =~= Seq::<Seq<char>>::empty());
    while i < v.len()
        invariant
            i <= v@.len(),
            views(out@) == without(views(v@).take(i as int), x@),
        decreases v.len() - i,
    {
        assert(views(v@).take(i + 1).drop_last() =~= views(v@).take(i as int));
        assert(views(v@).take(i + 1).last() == v@[i as int]@);
        if !(v[i] == *x) {
            let ghost before = out@;
            out.push(v[i].clone());
            assert(views(out@) =~= views(before).push(v@[i as int]@));
        }
        i = i + 1;
    }
    assert(views(v@).take(v@.len() as int) =~= views(v@));
    out
}

/// Applies a click on `app` in the media app list.
pub fn toggle_app(apps: &mut Vec<String>, known: &mut Vec<String>, app: &String)
    ensures
        views(final(apps)@) == toggled(views(old(apps)@), views(old(known)@), app@).0,
        views(final(known)@) == toggled(views(old(apps)@), views(old(known)@), app@).1,
{
    if contains_string(apps, app) {
        let kept = remove_all(apps, app);
        *apps = kept;
    } else {
        let ghost before = apps@;
        apps.push(app.clone());
        assert(views(apps@) =~= views(before).push(app@));
        push_unique(known, app.clone());
    }
}

/// `v` with each of `items`, in order, appended unless already present.
pub open spec fn with_all(v: Seq<Seq<char>>, items: Seq<Seq<char>>) -> Seq<Seq<char>>
    decreases items.len(),
{
    if items.len() == 0 {
        v
    } else {
        let w = with_all(v, items.drop_last());
        if w.contains(items.last()) {
            w
        } else {
            w.push(items.last())
        }
    }
}

proof fn lemma_with_all_grows(v: Seq<Seq<char>>, items: Seq<Seq<char>>)
    ensures
        with_all(v, items).len() >= v.len(),
        with_all(v, items).take(v.len() as int) == v,
    decreases items.len(),
{
    if items.len() > 0 {
        lemma_with_all_grows(v, items.drop_last());
        let w = with_all(v, items.drop_last());
        assert(w.push(items.last()).take(v.len() as int) =~= w.take(v.len() as int));
    } else {
        assert(v.take(v.len() as int) =~= v);
    }
}

/// Adds the apps seen in the media sessions, then the known apps, to the
/// apps listed in the settings; says whether the list grew.
pub fn merge_detected_apps(detected: &mut Vec<String>, session_ids: &Vec<String>, known: &Vec<String>) -> (r: bool)
    ensures
        views(final(detected)@) == with_all(with_all(views(old(detected)@), views(session_ids@)), views(known@)),
        r == (views(final(detected)@).len() > views(old(detected)@).len()),
{
    let ghost start = views(detected@);
    let n0 = detected.len();
    let mut i: usize = 0;
    assert(views(session_ids@).take(0) =~= Seq::<Seq<char>>::empty());
    while i < session_ids.len()
        invariant
            i <= session_ids@.len(),
            views(detected@) == with_all(start, views(session_ids@).take(i as int)),
        decreases session_ids.len() - i,
    {
        assert(views(session_ids@).take(i + 1).drop_last() =~= views(session_ids@).take(i as int));
        assert(views(session_ids@).take(i + 1).last() == session_ids@[i as int]@);
        push_unique(detected, session_ids[i].clone());
        i = i + 1;
    }
    assert(views(session_ids@).take(session_ids@.len() as int) =~= views(session_ids@));
    let ghost mid = views(detected@);
    let mut k: usize = 0;
    assert(views(known@).take(0) =~= Seq::<Seq<char>>::empty());
    while k < known.len()
        invariant
            k <= known@.len(),
            views(detected@) == with_all(mid, views(known@).take(k as int)),
        decreases known.len() - k,
    {
        assert(views(known@).take(k + 1).drop_last() =~= views(known@).take(k as int));
        assert(views(known@).take(k + 1).last() == known@[k as int]@);
        push_unique(detected, known[k].clone());
        k = k + 1;
    }
    assert(views(known@).take(known@.len() as int) =~= views(known@));
    proof {
        lemma_with_all_grows(start, views(session_ids@));
        lemma_with_all_grows(mid, views(known@));
    }
    detected.len() > n0
}

/// The menu label of the `n`-th active display: its friendly name, or its
/// device name when it has none.
pub open spec fn monitor_label(n: nat, name: Seq<char>, friendly: Seq<char>) -> Seq<char> {
    "Display "@ + decimal(n) + ": "@ + (if friendly.len() == 0 { name } else { friendly })
}

/// The entries of the monitor menu for the active displays, given as
/// device name and friendly name in system order; `Primary` when there are
/// none.
pub fn monitor_labels(displays: &Vec<(String, String)>) -> (r: Vec<String>)
    requires
        displays@.len() < u64::MAX,
    ensures
        displays@.len() == 0 ==> r@.len() == 1 && r@[0]@ == "Primary"@,
        displays@.len() > 0 ==> r@.len() == displays@.len() && forall|i: int| 0 <= i < r@.len()
            ==> (#[trigger] r@[i])@ == monitor_label((i + 1) as nat, displays@[i].0@, displays@[i].1@),
{
    let mut out: Vec<String> = Vec::new();
    if displays.len() == 0 {
        out.push(crate::text::owned("Primary"));
        return out;
    }
    let mut i: usize = 0;
    while i < displays.len()
        invariant
            i <= displays@.len() < u64::MAX,
            out@.len() == i,
            forall|j: int| 0 <= j < i ==> (#[trigger] out@[j])@ == monitor_label((j + 1) as nat, displays@[j].0@,
                displays@[j].1@),
        decreases displays.len() - i,
    {
        let (name, friendly) = (&displays[i].0, &displays[i].1);
        let mut label = crate::text::owned("Display ");
        let n = string_of(&decimal_chars((i + 1) as u64));
        push_str(&mut label, n.as_str());
        push_str(&mut label, ": ");
        if friendly.as_str().is_empty() {
            push_str(&mut label, name.as_str());
        } else {
            push_str(&mut label, friendly.as_str());
        }
        assert(label@ == monitor_label((i + 1) as nat, displays@[i as int].0@, displays@[i as int].1@));
        out.push(label);
        i = i + 1;
    }
    out
}

/// The settings page and, on the first page, its tab after an arrow key:
/// on the first page the arrows move between its three tabs; on the other
/// pages they move between the pages (left reaching the first page, right
/// stopping at the third). The flag says whether anything moved.
pub open spec fn after_arrow(page: int, tab: int, right: bool) -> (int, int, bool) {
    if page == 0 {
        if right {
            if tab < 2 { (0, tab + 1, true) } else { (page, tab, false) }
        } else {
            if tab > 0 { (0, tab - 1, true) } else { (page, tab, false) }
        }
    } else {
        if right {
            if page < 2 { (page + 1, tab, true) } else { (page, tab, false) }
        } else {
            (page - 1, tab, true)
        }
    }
}

/// Applies an arrow key to the settings page and tab.
pub fn arrow_key(page: u32, tab: u32, right: bool) -> (r: (u32, u32, bool))
    ensures
        (r.0 as int, r.1 as int, r.2) == after_arrow(page as int, tab as int, right),
{
    if page == 0 {
        if right {
            if tab < 2 { (0, tab + 1, true) } else { (page, tab, false) }
        } else {
            if tab > 0 { (0, tab - 1, true) } else { (page, tab, false) }
        }
    } else {
        if right {
            if page < 2 { (page + 1, tab, true) } else { (page, tab, false) }
        } else {
            (page - 1, tab, true)
        }
    }
}

/// Arrow keys keep the page and the tab among the three that exist, and a
/// left arrow undoes any right arrow that moved.
pub proof fn arrows_stay_and_undo(page: int, tab: int)
    requires
        0 <= page <= 2,
        0 <= tab <= 2,
    ensures
        0 <= after_arrow(page, tab, true).0 <= 2,
        0 <= after_arrow(page, tab, true).1 <= 2,
        0 <= after_arrow(page, tab, false).0 <= 2,
        0 <= after_arrow(page, tab, false).1 <= 2,
        after_arrow(page, tab, true).2 ==> {
            let m = after_arrow(page, tab, true);
            after_arrow(m.0, m.1, false) == (page, tab, true)
        },
{
}

/// Whether the settings window is drawn light: as the theme setting says
/// for `light` and `dark`, and as the system says for any other setting.
pub fn light_theme(setting: &str, system_light: bool) -> (r: bool)
    ensures
        r == (if setting@ == "light"@ {
            true
        } else if setting@ == "dark"@ {
            false
        } else {
            system_light
        }),
{
    if same_text(setting, "light") {
        true
    } else if same_text(setting, "dark") {
        false
    } else {
        system_light
    }
}

/// The switches, by their index in the settings, that a page and tab show:
/// the appearance switches (0 to 4) and the behaviour switches (5 to 7) on
/// the first page's second and third tabs, the music switches (8 to 11) on
/// the second page.
pub open spec fn page_switches(page: int, tab: int) -> Seq<usize> {
    if page == 0 && tab == 1 {
        seq![0usize, 1, 2, 3, 4]
    } else if page == 0 && tab == 2 {
        seq![5usize, 6, 7]
    } else if page == 1 {
        seq![8usize, 9, 10, 11]
    } else {
        Seq::empty()
    }
}

/// Lists the switches a page and tab show.
pub fn switches_on_page(page: u32, tab: u32) -> (r: Vec<usize>)
    ensures
        r@ == page_switches(page as int, tab as int),
{
    let mut r: Vec<usize> = Vec::new();
    if page == 0 && tab == 1 {
        r.push(0);
        r.push(1);
        r.push(2);
        r.push(3);
        r.push(4);
    } else if page == 0 && tab == 2 {
        r.push(5);
        r.push(6);
        r.push(7);
    } else if page == 1 {
        r.push(8);
        r.push(9);
        r.push(10);
        r.push(11);
    }
    assert(r@ =~= page_switches(page as int, tab as int));
    r
}

} // verus!
