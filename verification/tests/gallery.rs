use video_wallpaper::config::MonitorAssignments;
use video_wallpaper::gallery::{
    coverflow_class, current_wallpaper, initial_focus, is_selected, key_action, next_on_left,
    next_on_right, KeyAction, NavKey,
    next_on_scroll, preview_to_stop,
};
use video_wallpaper::video_scanner::VideoEntry;

#[test]
fn keyboard_and_wheel_navigation() {
    assert_eq!(next_on_right(0, 3), 1);
    assert_eq!(next_on_right(2, 3), 2);
    assert_eq!(next_on_right(7, 3), 2);
    assert_eq!(next_on_right(usize::MAX, 3), 2);
    assert_eq!(next_on_left(0), 0);
    assert_eq!(next_on_left(2), 1);
    assert_eq!(next_on_scroll(1, 3, true), 2);
    assert_eq!(next_on_scroll(1, 3, false), 0);
    assert_eq!(next_on_scroll(0, 1, false), 0);
}

#[test]
fn coverflow_classes() {
    assert_eq!(coverflow_class(4, 4), "coverflow-center");
    assert_eq!(coverflow_class(3, 4), "coverflow-near");
    assert_eq!(coverflow_class(6, 4), "coverflow-far");
    assert_eq!(coverflow_class(0, 4), "coverflow-distant");
    assert_eq!(coverflow_class(9, 4), "coverflow-distant");
}

fn entry(path: &str) -> (VideoEntry, String) {
    (VideoEntry { path: path.into(), file_name: "x".into(), modified: 0 }, "/t.jpg".into())
}

#[test]
fn initial_focus_on_current_wallpaper() {
    let entries = vec![entry("/a.mp4"), entry("/b.mp4"), entry("/b.mp4")];
    assert_eq!(initial_focus(&entries, &Some("/b.mp4".into())), 1);
    assert_eq!(initial_focus(&entries, &Some("/z.mp4".into())), 0);
    assert_eq!(initial_focus(&entries, &None), 0);
    assert!(is_selected("/b.mp4", &Some("/b.mp4".into())));
    assert!(!is_selected("/a.mp4", &Some("/b.mp4".into())));
    assert!(!is_selected("/a.mp4", &None));
}

#[test]
fn current_wallpaper_of_monitor() {
    let mut a = MonitorAssignments::new();
    a.insert("DP-1".into(), "/a.mp4".into());
    assert_eq!(current_wallpaper(&a, &Some("DP-1".into())), Some("/a.mp4".to_string()));
    assert_eq!(current_wallpaper(&a, &Some("DP-2".into())), None);
    assert_eq!(current_wallpaper(&a, &None), None);
}

#[test]
fn key_actions() {
    assert_eq!(key_action(NavKey::Left, 2, 5), KeyAction::Focus(1));
    assert_eq!(key_action(NavKey::Left, 0, 5), KeyAction::Focus(0));
    assert_eq!(key_action(NavKey::Right, 4, 5), KeyAction::Focus(4));
    assert_eq!(key_action(NavKey::Right, 1, 5), KeyAction::Focus(2));
    assert_eq!(key_action(NavKey::Enter, 3, 5), KeyAction::Select(3));
    assert_eq!(key_action(NavKey::Other, 3, 5), KeyAction::Propagate);
    assert_eq!(key_action(NavKey::Left, 0, 0), KeyAction::Propagate);
    assert_eq!(key_action(NavKey::Enter, 0, 0), KeyAction::Propagate);
}

#[test]
fn moving_focus_stops_the_old_preview() {
    assert_eq!(preview_to_stop(Some(2), 3), Some(2));
    assert_eq!(preview_to_stop(Some(3), 3), None);
    assert_eq!(preview_to_stop(None, 0), None);
}
