use winbar::apps::{shortcut_name, visit_entry, App, Visit};
use winbar::filter::{list_matches, MAX_RESULTS};
use winbar::geometry::Rect;
use winbar::paint::{PaintStep, TextLayout, ACCENT_COLOR, BACKGROUND_COLOR, TEXT_COLOR};
use winbar::search::{register_hotkey, EditAction, Hotkey, PopupAction, Search, Toggle};
use winbar::text::{contains_chars, lowercase_chars, order_of, TextOrder};
use winbar::usage::{Usage, UsageEntry};
use winbar::utf16::wide;
use winbar::win32;

const DAY: i64 = 86400;

fn app(name: &str) -> App {
    App { name: name.to_string(), path: format!("C:\\menu\\{}.lnk", name) }
}

fn path(name: &str) -> String {
    format!("C:\\menu\\{}.lnk", name)
}

fn entry(count: u32, last_used: i64) -> UsageEntry {
    UsageEntry { count, last_used }
}

fn score(count: u32, unused: u64) -> u64 {
    let days = unused as f64 / 86400.0;
    (count as f64 * 0.5f64.powf(days / 30.0)).to_bits()
}

fn search_with(names: &[&str], uses: Vec<(&str, UsageEntry)>) -> Search {
    let usage = Usage::from_entries(uses.into_iter().map(|(n, e)| (path(n), e)).collect());
    let mut search = Search::new(usage);
    search.warm_index(names.iter().map(|n| app(n)).collect());
    search
}

fn shown(search: &Search) -> Vec<String> {
    search.listed().iter().map(|i| search.apps()[*i].name.clone()).collect()
}

fn key(search: &mut Search, vk: u16) -> EditAction {
    search.edit_message(win32::WM_KEYDOWN, vk as usize)
}

fn click(search: &mut Search, y: i16) -> PopupAction {
    let lparam = ((y as u16 as usize) << 16) as isize;
    search.popup_message(win32::WM_LBUTTONDOWN, 0, lparam)
}

#[test]
fn unused_apps_are_listed_by_name() {
    let mut search = search_with(&["zeta", "Alpha", "beta", "ALPHA"], vec![]);
    search.apply_filter_at("", 0, &score);
    assert_eq!(search.listed(), &vec![1, 3, 2, 0]);
    assert_eq!(search.selected(), 0);
}

#[test]
fn query_is_a_substring_in_any_case() {
    let mut search = search_with(&["Visual Studio", "Notepad", "visualizer", "Paint"], vec![]);
    search.apply_filter_at("VISUAL", 0, &score);
    assert_eq!(shown(&search), vec!["Visual Studio", "visualizer"]);
    search.apply_filter_at("pa", 0, &score);
    assert_eq!(shown(&search), vec!["Notepad", "Paint"]);
    search.apply_filter_at("nothing like it", 0, &score);
    assert!(search.listed().is_empty());
}

#[test]
fn query_in_other_case_lists_the_same() {
    let names = ["Ärger", "ÄRGER two", "arger", "Straße"];
    let mut a = search_with(&names, vec![]);
    let mut b = search_with(&names, vec![]);
    a.apply_filter_at("ÄRG", 0, &score);
    b.apply_filter_at("ärg", 0, &score);
    assert_eq!(a.listed(), b.listed());
    assert_eq!(shown(&a), vec!["Ärger", "ÄRGER two"]);
}

#[test]
fn recent_use_outweighs_old_use() {
    let now = 400 * DAY;
    let mut search = search_with(
        &["daily", "old favourite", "never"],
        vec![("daily", entry(5, now)), ("old favourite", entry(40, now - 120 * DAY))],
    );
    search.apply_filter_at("", now, &score);
    // 40 uses count 2.5 after four half-lives.
    assert_eq!(shown(&search), vec!["daily", "old favourite", "never"]);
    search.apply_filter_at("", now - 120 * DAY, &score);
    assert_eq!(shown(&search), vec!["old favourite", "daily", "never"]);
}

#[test]
fn equal_scores_fall_back_to_the_name() {
    let mut search = search_with(
        &["b", "c", "a"],
        vec![("a", entry(3, 0)), ("b", entry(3, 0)), ("c", entry(3, 0))],
    );
    search.apply_filter_at("", 10, &score);
    assert_eq!(shown(&search), vec!["a", "b", "c"]);
}

#[test]
fn a_use_in_the_future_counts_as_just_now() {
    let seen = std::cell::RefCell::new(Vec::new());
    let mut search = search_with(&["a", "b"], vec![("a", entry(1, 100)), ("b", entry(2, 40))]);
    let rank = |count: u32, unused: u64| {
        seen.borrow_mut().push((count, unused));
        1
    };
    search.apply_filter_at("", 50, &rank);
    assert_eq!(*seen.borrow(), vec![(1, 0), (2, 10)]);
}

#[test]
fn list_is_cut_to_its_first_rows() {
    let names: Vec<String> = (0..25).map(|i| format!("app{:02}", 24 - i)).collect();
    let refs: Vec<&str> = names.iter().map(|n| n.as_str()).collect();
    let mut search = search_with(&refs, vec![("app20", entry(1, 0))]);
    search.apply_filter_at("", 0, &score);
    assert_eq!(search.listed().len(), MAX_RESULTS);
    let expected = [
        "app20", "app00", "app01", "app02", "app03", "app04", "app05", "app06", "app07", "app08",
    ];
    assert_eq!(shown(&search), expected);
}

#[test]
fn listing_agrees_with_a_stable_sort() {
    let mut seed: u64 = 12345;
    let mut next = |bound: u64| {
        seed = seed.wrapping_mul(6364136223846793005).wrapping_add(1442695040888963407);
        (seed >> 33) % bound
    };
    for _ in 0..200 {
        let n = next(30) as usize;
        let names: Vec<Vec<char>> = (0..n)
            .map(|_| (0..next(4)).map(|_| if next(2) == 0 { 'a' } else { 'b' }).collect())
            .collect();
        let ranks: Vec<u64> = (0..n).map(|_| next(3)).collect();
        let query: Vec<char> = (0..next(3)).map(|_| 'a').collect();
        let text: String = query.iter().collect();
        let mut expected: Vec<usize> = (0..n)
            .filter(|&i| names[i].iter().collect::<String>().contains(&text))
            .collect();
        expected.sort_by(|&i, &j| {
            ranks[j].cmp(&ranks[i]).then_with(|| {
                let a: String = names[i].iter().collect();
                let b: String = names[j].iter().collect();
                a.cmp(&b)
            })
        });
        expected.truncate(10);
        assert_eq!(list_matches(&names, &ranks, &query), expected);
    }
}

#[test]
fn refreshing_the_index_keeps_the_list() {
    let mut search = search_with(&["a", "b", "c"], vec![]);
    search.apply_filter_at("", 0, &score);
    key(&mut search, win32::VK_DOWN);
    key(&mut search, win32::VK_DOWN);
    search.warm_index(vec![app("only")]);
    assert_eq!(search.listed(), &vec![0, 1, 2]);
    assert_eq!(search.selected(), 2);
    // The selected app is gone, so there is nothing to launch.
    assert_eq!(search.launch_selected_at(5), None);
    assert!(search.usage().entries().is_empty());
}

#[test]
fn arrows_stay_on_the_list() {
    let mut search = search_with(&["a", "b", "c"], vec![]);
    assert_eq!(key(&mut search, win32::VK_DOWN), EditAction::Repaint);
    assert_eq!(search.selected(), 0);
    search.apply_filter_at("", 0, &score);
    assert_eq!(key(&mut search, win32::VK_UP), EditAction::Repaint);
    assert_eq!(search.selected(), 0);
    for expected in [1, 2, 2] {
        key(&mut search, win32::VK_DOWN);
        assert_eq!(search.selected(), expected);
    }
    key(&mut search, win32::VK_UP);
    assert_eq!(search.selected(), 1);
    search.apply_filter_at("c", 0, &score);
    assert_eq!(search.selected(), 0);
}

#[test]
fn keys_ask_for_the_right_thing() {
    let mut search = search_with(&["a"], vec![]);
    assert_eq!(key(&mut search, win32::VK_RETURN), EditAction::Launch);
    assert_eq!(key(&mut search, win32::VK_ESCAPE), EditAction::Close);
    assert_eq!(key(&mut search, 0x41), EditAction::Forward);
    assert_eq!(search.edit_message(0x0101, win32::VK_RETURN as usize), EditAction::Forward);
    // Only the low word of the parameter is the key.
    assert_eq!(search.edit_message(win32::WM_KEYDOWN, 0x7_000D), EditAction::Launch);
}

#[test]
fn launch_counts_the_use_and_prunes() {
    let now = 1000 * DAY;
    let year = 365 * DAY;
    let mut search = search_with(
        &["a", "b"],
        vec![
            ("a", entry(2, now - 3 * DAY)),
            ("edge", entry(9, now - year)),
            ("stale", entry(9, now - year - 1)),
            ("future", entry(1, now + 10)),
        ],
    );
    search.apply_filter_at("a", now, &score);
    assert_eq!(search.launch_selected_at(now), Some(path("a")));
    assert_eq!(search.usage().get(&path("a")), Some(entry(3, now)));
    assert_eq!(search.usage().get(&path("edge")), Some(entry(9, now - year)));
    assert_eq!(search.usage().get(&path("stale")), None);
    assert_eq!(search.usage().get(&path("future")), Some(entry(1, now + 10)));
    assert_eq!(search.usage().entries().len(), 3);

    search.apply_filter_at("b", now, &score);
    assert_eq!(search.launch_selected_at(now + 1), Some(path("b")));
    assert_eq!(search.usage().get(&path("b")), Some(entry(1, now + 1)));
}

#[test]
fn launch_now_records_the_time_of_the_clock() {
    let mut search = search_with(&["a"], vec![]);
    search.open_search(Vec::new(), &score);
    let before = chrono::Utc::now().timestamp();
    assert_eq!(search.launch_selected(), Some(path("a")));
    let after = chrono::Utc::now().timestamp();
    let used = search.usage().get(&path("a")).unwrap();
    assert_eq!(used.count, 1);
    assert!(before <= used.last_used && used.last_used <= after);
}

#[test]
fn launch_without_a_selection_does_nothing() {
    let mut search = search_with(&["a"], vec![("a", entry(4, 7))]);
    search.apply_filter_at("zzz", 100, &score);
    assert_eq!(search.launch_selected_at(100), None);
    assert_eq!(search.usage().get(&path("a")), Some(entry(4, 7)));
}

#[test]
fn exhausted_count_is_told() {
    let mut search = search_with(&["a", "b"], vec![("a", entry(u32::MAX, 7))]);
    search.apply_filter_at("a", 100, &score);
    assert!(search.count_exhausted());
    search.apply_filter_at("b", 100, &score);
    assert!(!search.count_exhausted());
    search.apply_filter_at("zzz", 100, &score);
    assert!(!search.count_exhausted());
}

#[test]
fn opening_reads_the_index_only_if_there_is_none() {
    let mut search = Search::new(Usage::new());
    assert!(search.needs_index());
    search.open_search_at(vec![app("b"), app("a")], 0, &score);
    assert_eq!(shown(&search), vec!["a", "b"]);
    assert!(!search.needs_index());
    search.open_search_at(vec![app("other")], 0, &score);
    assert_eq!(shown(&search), vec!["a", "b"]);
}

#[test]
fn opening_lists_everything_again() {
    let mut search = search_with(&["a", "b"], vec![]);
    search.apply_filter("b", &score);
    assert_eq!(shown(&search), vec!["b"]);
    search.open_search(Vec::new(), &score);
    assert_eq!(shown(&search), vec!["a", "b"]);
}

#[test]
fn query_comes_in_utf16() {
    let mut search = search_with(&["Äpfel", "Birnen", "ÄPFEL \u{1F34E}"], vec![]);
    search.query_changed(&wide("äpfel"), &score);
    assert_eq!(shown(&search), vec!["Äpfel", "ÄPFEL \u{1F34E}"]);
    search.query_changed(&wide("\u{1F34E}"), &score);
    assert_eq!(shown(&search), vec!["ÄPFEL \u{1F34E}"]);
    search.query_changed(&[], &score);
    assert_eq!(search.listed().len(), 3);
}

#[test]
fn hotkey_opens_and_closes() {
    let mut search = Search::new(Usage::new());
    assert_eq!(search.toggle_search(), Toggle::Open);
    search.popup_opened(77);
    search.edit_created(78);
    assert_eq!(search.edit(), 78);
    assert_eq!(search.toggle_search(), Toggle::Close(77));
    search.close_search();
    assert_eq!(search.edit(), 0);
    assert_eq!(search.toggle_search(), Toggle::Open);
    assert_eq!(register_hotkey(), Hotkey { id: 1, modifiers: 1, key: 0x20 });
}

#[test]
fn clicks_hit_the_rows() {
    let mut search = search_with(&["a", "b", "c"], vec![]);
    search.apply_filter_at("", 0, &score);
    assert_eq!(click(&mut search, 31), PopupAction::Ignore);
    assert_eq!(search.selected(), 0);
    assert_eq!(click(&mut search, 61), PopupAction::Launch);
    assert_eq!(search.selected(), 1);
    assert_eq!(search.launch_selected_at(9), Some(path("b")));
    assert_eq!(click(&mut search, 32), PopupAction::Launch);
    assert_eq!(search.selected(), 0);
    assert_eq!(search.launch_selected_at(9), Some(path("a")));
    assert_eq!(click(&mut search, 59), PopupAction::Launch);
    assert_eq!(search.selected(), 0);
    assert_eq!(click(&mut search, 60), PopupAction::Launch);
    assert_eq!(search.selected(), 1);
    assert_eq!(click(&mut search, 115), PopupAction::Launch);
    assert_eq!(search.selected(), 2);
    assert_eq!(click(&mut search, 116), PopupAction::Ignore);
    assert_eq!(click(&mut search, -5), PopupAction::Ignore);
    assert_eq!(search.selected(), 2);
}

#[test]
fn popup_messages_ask_for_the_right_thing() {
    let mut search = search_with(&["a"], vec![]);
    let cases = [
        (0x0001, 0, PopupAction::CreateEdit),
        (0x0133, 0, PopupAction::ColorEdit),
        (0x0111, 0x0300_0065, PopupAction::ReadQuery),
        (0x0111, 0x0400_0065, PopupAction::Ignore),
        (0x0006, 0, PopupAction::Close),
        (0x0006, 1, PopupAction::Ignore),
        (0x000F, 0, PopupAction::Paint),
        (0x0010, 0, PopupAction::Default),
    ];
    for (message, wparam, expected) in cases {
        assert_eq!(search.popup_message(message, wparam, 0), expected);
    }
}

#[test]
fn popup_is_drawn_row_by_row() {
    let mut search = search_with(&["a", "b"], vec![]);
    search.apply_filter_at("", 0, &score);
    key(&mut search, win32::VK_DOWN);
    let client = Rect { left: 0, top: 0, right: 480, bottom: 360 };
    let steps = search.draw_search(client);
    assert_eq!(steps.len(), 4);
    assert!(matches!(&steps[0], PaintStep::Fill { area, color }
        if *area == client && *color == BACKGROUND_COLOR));
    assert!(matches!(&steps[1], PaintStep::Text { text, area, color, layout }
        if text == "a" && *color == TEXT_COLOR && *layout == TextLayout::LeftCut
            && *area == Rect { left: 16, top: 32, right: 472, bottom: 60 }));
    assert!(matches!(&steps[2], PaintStep::Fill { area, color }
        if *color == ACCENT_COLOR && *area == Rect { left: 8, top: 60, right: 472, bottom: 88 }));
    assert!(matches!(&steps[3], PaintStep::Text { text, area, color, .. }
        if text == "b" && *color == BACKGROUND_COLOR
            && *area == Rect { left: 16, top: 60, right: 472, bottom: 88 }));
    // An app that is gone leaves its row empty.
    search.warm_index(vec![app("a")]);
    assert_eq!(search.draw_search(client).len(), 3);
}

#[test]
fn shortcuts_are_told_by_their_extension() {
    assert_eq!(shortcut_name("Paint.lnk"), Some("Paint".to_string()));
    assert_eq!(shortcut_name("Paint 3.1.LNK"), Some("Paint 3.1".to_string()));
    assert_eq!(shortcut_name("..lnk"), Some(".".to_string()));
    assert_eq!(shortcut_name(".lnk"), None);
    assert_eq!(shortcut_name("Paint.exe"), None);
    assert_eq!(shortcut_name("lnk"), None);
    assert_eq!(shortcut_name("Paint.lnk.txt"), None);
    for name in ["Paint.lnk", ".lnk", "..lnk", "a.b.lNk", "x.lnkk", "xlnk", "", "é.lnk"] {
        let file = std::path::Path::new(name);
        let expected = file
            .extension()
            .map_or(false, |e| e.eq_ignore_ascii_case("lnk"))
            .then(|| file.file_stem().unwrap().to_str().unwrap().to_string());
        assert_eq!(shortcut_name(name), expected);
    }
}

#[test]
fn folders_are_searched_and_shortcuts_added() {
    assert!(matches!(visit_entry(true, Some("x.lnk"), "C:\\x.lnk"), Visit::Descend));
    assert!(matches!(visit_entry(false, Some("x.lnk"), "C:\\x.lnk"), Visit::Add(app)
        if app.name == "x" && app.path == "C:\\x.lnk"));
    assert!(matches!(visit_entry(false, Some("x.txt"), "C:\\x.txt"), Visit::Skip));
    assert!(matches!(visit_entry(false, None, "C:\\?.lnk"), Visit::Skip));
}

#[test]
fn text_compares_as_strings_do() {
    let texts = ["", "a", "ab", "b", "aa", "é", "\u{FFFD}", "\u{1F600}", "Z"];
    for a in texts {
        for b in texts {
            let x: Vec<char> = a.chars().collect();
            let y: Vec<char> = b.chars().collect();
            let expected = if a < b {
                TextOrder::Before
            } else if a == b {
                TextOrder::Same
            } else {
                TextOrder::After
            };
            assert_eq!(order_of(&x, &y), expected);
            assert_eq!(contains_chars(&x, &y), b.contains(a));
        }
    }
    assert_eq!(lowercase_chars("ÀΣ X"), "àς x".chars().collect::<Vec<char>>());
}

#[test]
fn writing_on_narrows_the_list() {
    let names = ["Paint", "Painter", "Pad", "Notepad"];
    let mut search = search_with(&names, vec![]);
    let mut last: Vec<usize> = (0..names.len()).collect();
    for query in ["", "p", "pa", "pai", "paint", "painte"] {
        search.apply_filter_at(query, 0, &score);
        assert!(search.listed().iter().all(|i| last.contains(i)));
        last = search.listed().clone();
    }
    assert_eq!(shown(&search), vec!["Painter"]);
}

#[test]
fn closing_launches_nothing() {
    let mut search = search_with(&["a", "b"], vec![("a", entry(4, 7))]);
    search.apply_filter_at("", 100, &score);
    assert_eq!(key(&mut search, win32::VK_ESCAPE), EditAction::Close);
    assert_eq!(search.popup_message(win32::WM_ACTIVATE, 0, 0), PopupAction::Close);
    search.close_search();
    assert_eq!(search.usage().entries().len(), 1);
    assert_eq!(search.usage().get(&path("a")), Some(entry(4, 7)));
}

#[test]
fn a_used_app_stands_above_unused_ones() {
    let mut search = search_with(
        &["a", "b", "z", "y"],
        vec![("z", entry(1, 0)), ("y", entry(2, 10))],
    );
    search.apply_filter_at("", 50 * DAY, &score);
    assert_eq!(shown(&search), vec!["y", "z", "a", "b"]);
}

#[test]
fn ascii_case_of_the_query_does_not_matter() {
    let names = ["Visual Studio", "visualizer", "Paint", "VISUALS 2"];
    for query in ["ViSuAl s", "visual", "PAINT", "2"] {
        let mut plain = search_with(&names, vec![]);
        let mut capitals = search_with(&names, vec![]);
        let mut small = search_with(&names, vec![]);
        plain.apply_filter_at(query, 0, &score);
        capitals.apply_filter_at(&query.to_ascii_uppercase(), 0, &score);
        small.apply_filter_at(&query.to_ascii_lowercase(), 0, &score);
        assert!(!plain.listed().is_empty());
        assert_eq!(plain.listed(), capitals.listed());
        assert_eq!(plain.listed(), small.listed());
    }
}

#[test]
fn filtering_again_moves_only_the_selection() {
    let mut search = search_with(&["ab", "abc", "b", "c"], vec![("c", entry(3, 5))]);
    search.apply_filter_at("b", 9, &score);
    let first = search.listed().clone();
    assert_eq!(first, vec![0, 1, 2]);
    assert_eq!(key(&mut search, win32::VK_DOWN), EditAction::Repaint);
    assert_eq!(search.selected(), 1);
    search.apply_filter_at("b", 9, &score);
    assert_eq!(search.listed(), &first);
    assert_eq!(search.selected(), 0);
}

#[test]
fn as_many_rows_as_matches_up_to_the_limit() {
    let names: Vec<String> = (0..25).map(|i| format!("app {:02}", i)).collect();
    let names: Vec<&str> = names.iter().map(|n| n.as_str()).collect();
    let mut search = search_with(&names, vec![]);
    for (query, rows) in [("", 10), ("app", 10), ("app 1", 10), ("app 2", 5), ("app 24", 1), ("x", 0)] {
        search.apply_filter_at(query, 0, &score);
        assert_eq!(search.listed().len(), rows);
    }
}

#[test]
fn launching_never_moves_an_app_down() {
    let names = ["alpha", "beta", "gamma", "delta", "epsilon"];
    let uses = vec![("beta", entry(4, 0)), ("delta", entry(2, 10 * DAY)), ("gamma", entry(1, 0))];
    let now = 20 * DAY;
    for row in 0..5usize {
        let mut search = search_with(&names, uses.clone());
        search.apply_filter_at("a", now, &score);
        if row < search.listed().len() {
            let app = search.listed()[row];
            for _ in 0..row {
                key(&mut search, win32::VK_DOWN);
            }
            assert_eq!(search.selected(), row);
            assert_eq!(search.launch_selected_at(now), Some(path(names[app])));
            search.apply_filter_at("a", now, &score);
            let place = search.listed().iter().position(|i| *i == app);
            assert!(place.unwrap() <= row);
        }
    }
}

#[test]
fn the_most_launched_app_comes_first() {
    let uses = vec![("alpha", entry(4, 10)), ("zeta", entry(4, 0))];
    let mut search = search_with(&["alpha", "beta", "zeta"], uses);
    search.apply_filter_at("", 10, &score);
    assert_eq!(search.listed(), &vec![0, 2, 1]);
    key(&mut search, win32::VK_DOWN);
    assert_eq!(search.launch_selected_at(10), Some(path("zeta")));
    search.apply_filter_at("", 10, &score);
    assert_eq!(search.listed(), &vec![2, 0, 1]);
    assert_eq!(search.launch_selected_at(10), Some(path("zeta")));
    // What is recorded of an app that is gone does not matter.
    let uses = vec![("gone", entry(50, 10)), ("alpha", entry(1, 10)), ("zeta", entry(1, 0))];
    let mut search = search_with(&["alpha", "beta", "zeta"], uses);
    search.apply_filter_at("", 10, &score);
    key(&mut search, win32::VK_DOWN);
    assert_eq!(search.launch_selected_at(10), Some(path("zeta")));
    search.apply_filter_at("", 10, &score);
    assert_eq!(search.listed(), &vec![2, 0, 1]);
}
