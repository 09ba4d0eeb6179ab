use winbar::bar::{bar_message, volume_hit, workspace_label, Bar, BarAction, ForegroundChange};
use winbar::fullscreen::{bar_visibility, is_desktop_class, is_fullscreen_window, Visibility};
use winbar::geometry::{
    appbar_rect, clock_rect, edit_placement, popup_placement, row_at, row_rect, title_rect,
    volume_rect, workspace_rect, Placement, Rect,
};
use winbar::labels::{clock_text, volume_text};
use winbar::paint::{PaintStep, TextLayout, ACCENT_COLOR, BACKGROUND_COLOR, TEXT_COLOR};
use winbar::utf16::{title_text, trim_nuls, wide, wide_nul};
use winbar::volume::{mute_after_click, with_endpoint_volume};
use winbar::win32::{hotkey_number, lparam_x, lparam_y, notification_code, wheel_delta};

fn rect(left: i32, top: i32, right: i32, bottom: i32) -> Rect {
    Rect { left, top, right, bottom }
}

fn lparam(x: i16, y: i16) -> isize {
    ((y as u16 as usize) << 16 | x as u16 as usize) as isize
}

const CLIENT: Rect = Rect { left: 0, top: 0, right: 1920, bottom: 32 };

#[test]
fn words_are_signed() {
    for x in [0i16, 1, -1, i16::MAX, i16::MIN, 300] {
        for y in [0i16, 1, -1, i16::MAX, i16::MIN, -300] {
            assert_eq!(lparam_x(lparam(x, y)), x as i32);
            assert_eq!(lparam_y(lparam(x, y)), y as i32);
        }
    }
    assert_eq!(lparam_y(-1), -1);
    assert_eq!(lparam_x(-65536), 0);
    assert_eq!(wheel_delta(120 << 16), 120);
    assert_eq!(wheel_delta((-120i16 as u16 as usize) << 16 | 9), -120);
    assert_eq!(notification_code(0x0300_0065), 0x0300);
    assert_eq!(hotkey_number(1), 1);
    assert_eq!(hotkey_number(0xFFFF_FFFF), -1);
}

#[test]
fn bar_messages_ask_for_the_right_thing() {
    let cases = [
        (0x0001, 0, 0, BarAction::Create),
        (0x0002, 0, 0, BarAction::Destroy),
        (0x000F, 0, 0, BarAction::Paint),
        (0x0113, 1, 0, BarAction::Refresh),
        (0x0113, 2, 0, BarAction::CheckFullscreen),
        (0x0113, 3, 0, BarAction::Ignore),
        (0x0312, 1, 0, BarAction::ToggleSearch),
        (0x0312, 2, 0, BarAction::Ignore),
        (0x0201, 0, lparam(7, -2), BarAction::Click { x: 7, y: -2 }),
        (0x020A, 120 << 16, lparam(-9, 4), BarAction::Wheel { percent: 5, x: -9, y: 4 }),
        (
            0x020A,
            (-120i16 as u16 as usize) << 16,
            lparam(1, 2),
            BarAction::Wheel { percent: -5, x: 1, y: 2 },
        ),
        (0x0200, 0, 0, BarAction::Default),
    ];
    for (message, wparam, lparam, expected) in cases {
        assert_eq!(bar_message(message, wparam, lparam), expected);
    }
}

#[test]
fn widgets_have_their_places() {
    assert_eq!(volume_rect(1920, 32), rect(1800, 0, 1900, 32));
    assert_eq!(clock_rect(1920, 32), rect(890, 0, 1030, 32));
    assert_eq!(clock_rect(1921, 32), rect(890, 0, 1030, 32));
    assert_eq!(clock_rect(-3, 32), rect(-71, 0, 69, 32));
    assert_eq!(workspace_rect(0, 32), rect(10, 4, 46, 28));
    assert_eq!(workspace_rect(6, 32), rect(274, 4, 310, 28));
    assert_eq!(title_rect(1920, 32), rect(338, 0, 880, 32));
    assert_eq!(appbar_rect(1920), rect(0, 0, 1920, 32));
    assert_eq!(
        rect(0, 40, 1920, 72).placement(),
        Placement { x: 0, y: 40, width: 1920, height: 32 }
    );
    assert_eq!(
        popup_placement(1920, 1080),
        Placement { x: 720, y: 360, width: 480, height: 360 }
    );
    assert_eq!(
        popup_placement(479, 355),
        Placement { x: 0, y: -2, width: 480, height: 360 }
    );
    assert_eq!(edit_placement(), Placement { x: 8, y: 8, width: 464, height: 20 });
}

#[test]
fn clicked_row_is_the_drawn_one() {
    for row in 0..10usize {
        let area = row_rect(row, 480);
        for y in area.top..area.bottom {
            assert_eq!(row_at(y), Some(row));
        }
    }
    assert_eq!(row_at(32), Some(0));
    assert_eq!(row_at(31), None);
    assert_eq!(row_at(i32::MIN), None);
}

#[test]
fn volume_widget_is_hit_inside_only() {
    let widget = rect(1800, 0, 1900, 32);
    assert_eq!(volume_hit(CLIENT, 1800, 0), Some(widget));
    assert_eq!(volume_hit(CLIENT, 1899, 31), Some(widget));
    assert_eq!(volume_hit(CLIENT, 1799, 5), None);
    assert_eq!(volume_hit(CLIENT, 1900, 5), None);
    assert_eq!(volume_hit(CLIENT, 1850, 32), None);
    assert_eq!(volume_hit(CLIENT, 1850, -1), None);
}

#[test]
fn volume_reads_level_or_mute() {
    assert_eq!(volume_text(0, false), "Vol 0%");
    assert_eq!(volume_text(47, false), "Vol 47%");
    assert_eq!(volume_text(100, false), "Vol 100%");
    assert_eq!(volume_text(u32::MAX, false), "Vol 4294967295%");
    assert_eq!(volume_text(47, true), "Mute");
}

#[test]
fn failed_reading_keeps_the_volume() {
    let mut bar = Bar::new();
    bar.volume_read(None);
    assert_eq!((bar.volume, bar.muted), (0, false));
    bar.volume_read(Some((55, true)));
    assert_eq!((bar.volume, bar.muted), (55, true));
    bar.volume_read(None);
    assert_eq!((bar.volume, bar.muted), (55, true));
    bar.volume_read(Some((60, false)));
    assert_eq!((bar.volume, bar.muted), (60, false));
}

#[test]
fn click_mutes_and_unmutes() {
    assert!(mute_after_click(false));
    assert!(!mute_after_click(true));
}

#[test]
fn clock_reads_as_a_time_of_day() {
    let before = chrono::Local::now().time();
    let text = clock_text();
    let after = chrono::Local::now().time();
    assert_eq!(text.len(), 8);
    let shown = chrono::NaiveTime::parse_from_str(&text, "%H:%M:%S").unwrap();
    let second = chrono::TimeDelta::seconds(1);
    // Unless midnight passes in between.
    assert!(after < before || (before - second <= shown && shown <= after));
}

#[test]
fn bar_is_drawn_from_left_to_right() {
    let mut bar = Bar::new();
    bar.title = "Notepad".to_string();
    bar.volume_read(Some((30, false)));
    bar.workspace_focused(2);
    let steps = bar.draw_with_clock(CLIENT, "12:34:56".to_string());
    assert_eq!(steps.len(), 1 + 7 + 1 + 3);
    assert!(matches!(&steps[0], PaintStep::Fill { area, color }
        if *area == CLIENT && *color == BACKGROUND_COLOR));
    let labels = ["I", "II", "III", "IV", "V", "VI", "VII"];
    let mut at = 1;
    for (i, label) in labels.iter().enumerate() {
        assert_eq!(workspace_label(i), *label);
        let place = workspace_rect(i, 32);
        if i == 2 {
            assert!(matches!(&steps[at], PaintStep::Fill { area, color }
                if *area == place && *color == ACCENT_COLOR));
            at += 1;
        }
        let ink = if i == 2 { BACKGROUND_COLOR } else { TEXT_COLOR };
        assert!(matches!(&steps[at], PaintStep::Text { text, area, color, layout }
            if text == label && *area == place && *color == ink && *layout == TextLayout::Centered));
        at += 1;
    }
    assert!(matches!(&steps[at], PaintStep::Text { text, area, layout, .. }
        if text == "Notepad" && *area == title_rect(1920, 32) && *layout == TextLayout::LeftCut));
    assert!(matches!(&steps[at + 1], PaintStep::Text { text, area, .. }
        if text == "Vol 30%" && *area == volume_rect(1920, 32)));
    assert!(matches!(&steps[at + 2], PaintStep::Text { text, area, color, .. }
        if text == "12:34:56" && *area == clock_rect(1920, 32) && *color == TEXT_COLOR));
}

#[test]
fn first_workspace_is_marked_until_another_is_named() {
    let bar = Bar::new();
    let steps = bar.draw(CLIENT);
    // Without a title, with the first workspace marked.
    assert_eq!(steps.len(), 1 + 7 + 1 + 2);
    assert!(matches!(&steps[1], PaintStep::Fill { area, .. } if *area == workspace_rect(0, 32)));
}

#[test]
fn workspace_out_of_range_marks_nothing() {
    let mut bar = Bar::new();
    bar.workspace_focused(7);
    let steps = bar.draw(CLIENT);
    assert_eq!(steps.iter().filter(|s| matches!(s, PaintStep::Fill { .. })).count(), 1);
}

#[test]
fn window_in_front_sets_title_and_visibility() {
    let mut bar = Bar::new();
    let buffer = wide_nul("Editor");
    let early = bar.foreground_changed(3, 5, 6, &buffer, true);
    assert_eq!(early, ForegroundChange { visibility: None, repaint: false });
    assert_eq!(bar.title, "Editor");

    bar.created(9);
    let hidden = bar.foreground_changed(3, 5, 0, &[], true);
    assert_eq!(
        hidden,
        ForegroundChange { visibility: Some(Visibility::Hidden), repaint: true }
    );
    assert_eq!(bar.title, "");
    let shown = bar.foreground_changed(3, 5, 6, &buffer, false);
    assert_eq!(
        shown,
        ForegroundChange { visibility: Some(Visibility::Shown), repaint: true }
    );
    let own = bar.foreground_changed(3, 9, 6, &buffer, true);
    assert_eq!(own, ForegroundChange { visibility: None, repaint: true });
    let other = bar.foreground_changed(4, 5, 0, &[], true);
    assert_eq!(other, ForegroundChange { visibility: None, repaint: false });
    assert_eq!(bar.title, "Editor");

    bar.first_title(0, &[]);
    assert_eq!(bar.title, "Editor");
    bar.first_title(2, &wide_nul("ab"));
    assert_eq!(bar.title, "ab");
}

#[test]
fn fullscreen_is_covering_the_monitor() {
    let monitor = rect(0, 0, 1920, 1080);
    let game = wide("UnrealWindow");
    let larger = rect(-8, -8, 1928, 1088);
    let smaller = rect(0, 32, 1920, 1080);
    assert!(is_fullscreen_window(&game, Some(monitor), Some(monitor)));
    assert!(is_fullscreen_window(&game, Some(larger), Some(monitor)));
    assert!(!is_fullscreen_window(&game, Some(smaller), Some(monitor)));
    assert!(!is_fullscreen_window(&game, None, Some(monitor)));
    assert!(!is_fullscreen_window(&game, Some(monitor), None));
    assert!(!is_fullscreen_window(&wide("Progman"), Some(monitor), Some(monitor)));
    assert!(!is_fullscreen_window(&wide("WorkerW"), Some(monitor), Some(monitor)));
    assert!(is_desktop_class("WorkerW2"));
    assert!(!is_desktop_class("Worker"));
    assert!(!is_desktop_class("Progman2"));
    assert!(!is_desktop_class(""));
    assert_eq!(bar_visibility(1, 2, true), Some(Visibility::Hidden));
    assert_eq!(bar_visibility(1, 2, false), Some(Visibility::Shown));
    assert_eq!(bar_visibility(1, 1, true), None);
}

#[test]
fn titles_lose_their_trailing_nuls() {
    assert_eq!(title_text(&[72, 105, 0, 0]), "Hi");
    assert_eq!(title_text(&[0, 0]), "");
    assert_eq!(title_text(&[72, 0, 105, 0]), "H\0i");
    assert_eq!(title_text(&[0xD83D, 0xDE00, 0]), "\u{1F600}");
    assert_eq!(title_text(&[0xD83D, 65]), "\u{FFFD}A");
    assert_eq!(title_text(&[0xDE00, 0xD83D]), "\u{FFFD}\u{FFFD}");
    assert_eq!(title_text(&[0xD83D, 0xD83D, 0xDE00]), "\u{FFFD}\u{1F600}");
    assert_eq!(title_text(&[0xD800, 0xDC00, 0xDBFF, 0xDFFF]), "\u{10000}\u{10FFFF}");
    assert_eq!(title_text(&[0xD7FF, 0xE000]), "\u{D7FF}\u{E000}");
    assert_eq!(trim_nuls("a\0b\0\0"), "a\0b");
}

#[test]
fn utf16_is_that_of_the_standard_library() {
    for text in ["", "plain", "Ünï", "\u{FFFF}\u{10000}\u{10FFFF}", "\u{D7FF}\u{E000}", "a\u{1F600}b"] {
        let expected: Vec<u16> = text.encode_utf16().collect();
        assert_eq!(wide(text), expected);
        let mut terminated = expected.clone();
        terminated.push(0);
        assert_eq!(wide_nul(text), terminated);
    }
}

#[test]
fn sound_device_is_cached_until_it_fails() {
    let asked = std::cell::Cell::new(0);
    let acquire = || {
        asked.set(asked.get() + 1);
        if asked.get() == 1 { None } else { Some(asked.get()) }
    };
    let mut slot: Option<i32> = None;
    // There is no device yet.
    assert_eq!(with_endpoint_volume(&mut slot, &acquire, |d: &i32| Some(*d)), None);
    assert_eq!(slot, None);
    // Now there is, and it is asked for once.
    assert_eq!(with_endpoint_volume(&mut slot, &acquire, |d: &i32| Some(*d)), Some(2));
    assert_eq!(with_endpoint_volume(&mut slot, &acquire, |d: &i32| Some(*d)), Some(2));
    assert_eq!(asked.get(), 2);
    // It fails, so that it is asked for again.
    assert_eq!(with_endpoint_volume(&mut slot, &acquire, |_: &i32| None::<i32>), None);
    assert_eq!(slot, None);
    assert_eq!(with_endpoint_volume(&mut slot, &acquire, |d: &i32| Some(*d)), Some(3));
}

#[test]
fn widgets_stand_side_by_side() {
    for width in [379, 380, 381, 800, 1366, 3840] {
        let clock = clock_rect(width, 32);
        let left = clock.left;
        let right = width - clock.right;
        assert!(left == right || left + 1 == right);
        for i in 0..6 {
            assert!(workspace_rect(i, 32).right < workspace_rect(i + 1, 32).left);
        }
        assert!(workspace_rect(6, 32).right < title_rect(width, 32).left);
        assert!(title_rect(width, 32).right < clock.left);
        assert!(clock.right <= volume_rect(width, 32).left);
    }
    assert!(clock_rect(378, 32).right > volume_rect(378, 32).left);
    assert!(row_rect(9, 480).bottom <= 360);
}

#[test]
fn utf16_of_joined_texts_is_joined() {
    let mut units = wide("a\u{1F600}");
    units.extend(wide("bc"));
    assert_eq!(wide("a\u{1F600}bc"), units);
    assert!(!wide("C:\\menu\\x.lnk").contains(&0));
}

#[test]
fn utf16_reads_back_what_was_written() {
    for text in ["", "winbar", "\u{D7FF}\u{E000}\u{FFFF}", "a\u{1F600}b", "\u{10000}\u{10FFFF}"] {
        assert_eq!(title_text(&wide(text)), text);
    }
}
