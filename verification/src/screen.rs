//! Window bookkeeping: style flag edits and the test for a foreground
//! window that covers its whole monitor.

use vstd::prelude::*;
use crate::text::same_text;

verus! {

/// A window style after adding the flags `add` and then clearing `remove`.
pub fn edited_style(current: isize, add: isize, remove: isize) -> (r: isize)
    ensures
        r == (current | add) & !remove,
{
    (current | add) & !remove
}

/// A style edit leaves every removed flag cleared, every added flag that is
/// not also removed set, and every other flag as it was.
pub proof fn style_edit_flags(current: isize, add: isize, remove: isize)
    ensures
        ((current | add) & !remove) & remove == 0,
        ((current | add) & !remove) & (add & !remove) == add & !remove,
        ((current | add) & !remove) & !(add | remove) == current & !(add | remove),
{
    assert(((current | add) & !remove) & remove == 0) by (bit_vector);
    assert(((current | add) & !remove) & (add & !remove) == add & !remove) by (bit_vector);
    assert(((current | add) & !remove) & !(add | remove) == current & !(add | remove)) by (bit_vector);
}

/// A rectangle in screen pixels.
pub struct ScreenRect {
    pub left: i32,
    pub top: i32,
    pub right: i32,
    pub bottom: i32,
}

/// Whether `window` reaches every edge of `monitor`.
pub open spec fn covers(window: ScreenRect, monitor: ScreenRect) -> bool {
    window.left <= monitor.left && window.top <= monitor.top && window.right >= monitor.right
        && window.bottom >= monitor.bottom
}

/// The desktop and the taskbar, which are never taken for a full-screen app.
pub open spec fn shell_class(name: Seq<char>) -> bool {
    name == "Progman"@ || name == "WorkerW"@ || name == "Shell_TrayWnd"@
}

/// What is known of the foreground window.
pub struct ForegroundWindow {
    pub minimized: bool,
    pub process_id: u32,
    /// Its window class name; empty when it could not be read.
    pub class_name: String,
    /// Its rectangle, when it could be read.
    pub rect: Option<ScreenRect>,
    /// The rectangle of the monitor it is on, when it could be read.
    pub monitor: Option<ScreenRect>,
}

/// A foreground app runs full screen: there is a foreground window, not
/// minimized, of another process, not the desktop or taskbar, and it covers
/// its monitor.
pub open spec fn runs_full_screen(w: Option<ForegroundWindow>, own_process_id: u32) -> bool {
    match w {
        None => false,
        Some(w) => {
            &&& !w.minimized
            &&& w.process_id != own_process_id
            &&& !shell_class(w.class_name@)
            &&& w.rect is Some
            &&& w.monitor is Some
            &&& covers(w.rect.unwrap(), w.monitor.unwrap())
        },
    }
}

/// Whether the foreground app runs full screen, as `runs_full_screen` says.
pub fn is_foreground_fullscreen(w: &Option<ForegroundWindow>, own_process_id: u32) -> (r: bool)
    ensures
        r == runs_full_screen(*w, own_process_id),
{
    match w {
        None => false,
        Some(w) => {
            if w.minimized || w.process_id == own_process_id {
                return false;
            }
            let name = w.class_name.as_str();
            if same_text(name, "Progman") || same_text(name, "WorkerW") || same_text(name, "Shell_TrayWnd") {
                return false;
            }
            match (&w.rect, &w.monitor) {
                (Some(r), Some(m)) => r.left <= m.left && r.top <= m.top && r.right >= m.right
                    && r.bottom >= m.bottom,
                _ => false,
            }
        },
    }
}

} // verus!
