//! When the bar hides: while the window in front covers its whole monitor.

use vstd::prelude::*;

use crate::geometry::Rect;
use crate::text::chars_of;
use crate::utf16::{from_utf16_lossy, utf16_lossy};

verus! {

/// How the bar is to be shown.
#[derive(Clone, Copy, Debug, PartialEq, Eq, Structural)]
pub enum Visibility {
    /// Not at all.
    Hidden,
    /// Shown, without taking the focus.
    Shown,
}

/// The window class is one of the desktop: `Progman`, or one that starts with
/// `WorkerW`.
pub open spec fn is_desktop(class_name: Seq<char>) -> bool {
    ||| class_name == "Progman"@
    ||| "WorkerW"@.len() <= class_name.len() && class_name.take("WorkerW"@.len() as int)
        == "WorkerW"@
}

/// Is the window class one of the desktop?
pub fn is_desktop_class(class_name: &str) -> (desktop: bool)
    ensures
        desktop == is_desktop(class_name@),
{
    if class_name.to_string() == "Progman".to_string() {
        return true;
    }
    let name = chars_of(class_name);
    let prefix = chars_of("WorkerW");
    if prefix.len() > name.len() {
        return false;
    }
    let mut i: usize = 0;
    while i < prefix.len()
        invariant
            name@ == class_name@,
            prefix@ == "WorkerW"@,
            i <= prefix@.len() <= name@.len(),
            class_name@ != "Progman"@,
            forall|j: int| 0 <= j < i ==> prefix@[j] == name@[j],
        decreases prefix@.len() - i,
    {
        if prefix[i] != name[i] {
            assert(name@.take(prefix@.len() as int)[i as int] != prefix@[i as int]);
            return false;
        }
        i += 1;
    }
    assert(name@.take(prefix@.len() as int) =~= prefix@);
    true
}

/// A window of that class and place shows something in full screen: it covers
/// its monitor and is not the desktop. A window without a known place, or on no
/// known monitor, does not.
pub open spec fn shows_fullscreen(
    class_name: Seq<char>,
    window: Option<Rect>,
    monitor: Option<Rect>,
) -> bool {
    match (window, monitor) {
        (Some(window), Some(monitor)) => !is_desktop(class_name) && window.spec_covers(monitor),
        _ => false,
    }
}

/// Does a window show something in full screen? The class name is in UTF-16.
pub fn is_fullscreen_window(
    class_name: &[u16],
    window: Option<Rect>,
    monitor: Option<Rect>,
) -> (fullscreen: bool)
    ensures
        fullscreen == shows_fullscreen(utf16_lossy(class_name@), window, monitor),
{
    let name = from_utf16_lossy(class_name);
    if is_desktop_class(name.as_str()) {
        return false;
    }
    match window {
        Some(window) => match monitor {
            Some(monitor) => window.covers(&monitor),
            None => false,
        },
        None => false,
    }
}

/// How the bar is to be shown while `window` is in front: hidden behind full
/// screen, else shown. The bar itself in front changes nothing.
pub open spec fn visibility_for(bar: isize, window: isize, fullscreen: bool) -> Option<
    Visibility,
> {
    if window == bar {
        None
    } else if fullscreen {
        Some(Visibility::Hidden)
    } else {
        Some(Visibility::Shown)
    }
}

/// How is the bar to be shown while `window` is in front?
pub fn bar_visibility(bar: isize, window: isize, fullscreen: bool) -> (visibility: Option<
    Visibility,
>)
    ensures
        visibility == visibility_for(bar, window, fullscreen),
{
    if window == bar {
        None
    } else if fullscreen {
        Some(Visibility::Hidden)
    } else {
        Some(Visibility::Shown)
    }
}

} // verus!
