//! The gallery's navigation and selection rules: which tile takes the
//! focus, how tiles are styled around it, and which tile starts focused.
use vstd::prelude::*;
use crate::config::MonitorAssignments;
use crate::text::str_eq;
use crate::util::view_opt;
use crate::video_scanner::VideoEntry;

verus! {

/// The focus one tile further right, stopping at the last tile.
pub open spec fn step_right(cur: int, count: int) -> int {
    if cur + 1 < count - 1 {
        cur + 1
    } else {
        count - 1
    }
}

/// The focus one tile further left, stopping at the first tile.
pub open spec fn step_left(cur: int) -> int {
    if cur > 0 {
        cur - 1
    } else {
        cur
    }
}

/// The Right key: `min(cur + 1, count - 1)`.
pub fn next_on_right(cur: usize, count: usize) -> (r: usize)
    requires
        count > 0,
    ensures
        r == step_right(cur as int, count as int),
        r < count,
{
    if cur >= count - 1 {
        count - 1
    } else {
        cur + 1
    }
}

/// The Left key.
pub fn next_on_left(cur: usize) -> (r: usize)
    ensures
        r == step_left(cur as int),
{
    if cur > 0 {
        cur - 1
    } else {
        cur
    }
}

/// The mouse wheel: a downward scroll moves right, any other moves left.
pub fn next_on_scroll(cur: usize, count: usize, down: bool) -> (r: usize)
    requires
        count > 0,
    ensures
        r == (if down {
            step_right(cur as int, count as int)
        } else {
            step_left(cur as int)
        }),
{
    if down {
        next_on_right(cur, count)
    } else {
        next_on_left(cur)
    }
}

/// The keys the gallery answers to.
#[derive(Debug, Clone, Copy, PartialEq, Eq, Structural)]
pub enum NavKey {
    Left,
    Right,
    /// Return or keypad Enter.
    Enter,
    Other,
}

/// What a key press does to the gallery.
#[derive(Debug, Clone, Copy, PartialEq, Eq, Structural)]
pub enum KeyAction {
    /// Move the focus to this tile (the event stops here).
    Focus(usize),
    /// Apply the wallpaper of this tile (the event stops here).
    Select(usize),
    /// Leave the event to other handlers; nothing changes.
    Propagate,
}

pub open spec fn key_action_spec(key: NavKey, cur: int, count: int) -> KeyAction {
    if count == 0 {
        KeyAction::Propagate
    } else {
        match key {
            NavKey::Left => KeyAction::Focus(step_left(cur) as usize),
            NavKey::Right => KeyAction::Focus(step_right(cur, count) as usize),
            NavKey::Enter => KeyAction::Select(cur as usize),
            NavKey::Other => KeyAction::Propagate,
        }
    }
}

/// The action of a key press with `count` tiles and the focus on `cur`.
pub fn key_action(key: NavKey, cur: usize, count: usize) -> (r: KeyAction)
    ensures
        r == key_action_spec(key, cur as int, count as int),
{
    if count == 0 {
        return KeyAction::Propagate;
    }
    match key {
        NavKey::Left => KeyAction::Focus(next_on_left(cur)),
        NavKey::Right => KeyAction::Focus(next_on_right(cur, count)),
        NavKey::Enter => KeyAction::Select(cur),
        NavKey::Other => KeyAction::Propagate,
    }
}

/// From a tile of the gallery, a key moves the focus only to a tile of the
/// gallery, and Enter selects the focused tile without moving the focus.
pub proof fn keys_keep_focus_in_gallery(key: NavKey, cur: int, count: int)
    requires
        0 <= cur < count,
        count <= usize::MAX,
    ensures
        match key_action_spec(key, cur, count) {
            KeyAction::Focus(i) => 0 <= i < count,
            KeyAction::Select(i) => i == cur,
            KeyAction::Propagate => key == NavKey::Other,
        },
{
}

/// From a tile of the gallery, each move lands on a tile of the gallery at
/// most one step away.
pub proof fn navigation_stays_in_gallery(cur: int, count: int)
    requires
        0 <= cur < count,
    ensures
        0 <= step_right(cur, count) < count,
        0 <= step_left(cur) < count,
        step_right(cur, count) - cur <= 1,
        cur - step_left(cur) <= 1,
        step_right(cur, count) >= cur,
        step_left(cur) <= cur,
{
}

/// The arrow keys move the focus by one tile and stop at the ends: Left
/// from tile `cur > 0` focuses `cur - 1` and stays on the first tile; Right
/// focuses `cur + 1` and stays on the last tile; Enter selects `cur`; other
/// keys, and every key in an empty gallery, are left to other handlers.
pub proof fn arrow_keys_move_one_tile(key: NavKey, cur: int, count: int)
    requires
        0 <= cur,
        count <= usize::MAX,
        cur <= usize::MAX,
    ensures
        count == 0 ==> key_action_spec(key, cur, count) == KeyAction::Propagate,
        0 < cur < count ==> key_action_spec(NavKey::Left, cur, count) == KeyAction::Focus(
            (cur - 1) as usize,
        ),
        cur == 0 < count ==> key_action_spec(NavKey::Left, cur, count) == KeyAction::Focus(0),
        cur + 1 < count ==> key_action_spec(NavKey::Right, cur, count) == KeyAction::Focus(
            (cur + 1) as usize,
        ),
        cur + 1 == count ==> key_action_spec(NavKey::Right, cur, count) == KeyAction::Focus(
            cur as usize,
        ),
        0 < count ==> key_action_spec(NavKey::Enter, cur, count) == KeyAction::Select(
            cur as usize,
        ),
        key_action_spec(NavKey::Other, cur, count) == KeyAction::Propagate,
{
}

/// The wheel and the arrow keys step alike: one tile at a time, stopping at
/// the first and the last tile.
pub proof fn steps_move_one_tile(cur: int, count: int)
    requires
        0 <= cur < count,
    ensures
        cur > 0 ==> step_left(cur) == cur - 1,
        cur == 0 ==> step_left(cur) == 0,
        cur + 1 < count ==> step_right(cur, count) == cur + 1,
        cur + 1 == count ==> step_right(cur, count) == cur,
{
}

/// The coverflow style of a tile at distance `dist` from the focused one.
pub open spec fn coverflow_class_spec(dist: int) -> Seq<char> {
    if dist == 0 {
        "coverflow-center"@
    } else if dist == 1 {
        "coverflow-near"@
    } else if dist == 2 {
        "coverflow-far"@
    } else {
        "coverflow-distant"@
    }
}

pub open spec fn distance(i: int, j: int) -> int {
    if i >= j {
        i - j
    } else {
        j - i
    }
}

/// The coverflow style of tile `i` when tile `focused` has the focus.
pub fn coverflow_class(i: usize, focused: usize) -> (r: &'static str)
    ensures
        r@ == coverflow_class_spec(distance(i as int, focused as int)),
{
    let dist = if i >= focused {
        i - focused
    } else {
        focused - i
    };
    if dist == 0 {
        "coverflow-center"
    } else if dist == 1 {
        "coverflow-near"
    } else if dist == 2 {
        "coverflow-far"
    } else {
        "coverflow-distant"
    }
}

/// Exactly the focused tile is styled as the centre.
pub proof fn only_focused_tile_is_centre(i: int, focused: int)
    ensures
        (coverflow_class_spec(distance(i, focused)) == "coverflow-center"@) <==> i == focused,
{
    reveal_strlit("coverflow-center");
    reveal_strlit("coverflow-near");
    reveal_strlit("coverflow-far");
    reveal_strlit("coverflow-distant");
    assert("coverflow-near"@.len() != "coverflow-center"@.len());
    assert("coverflow-far"@.len() != "coverflow-center"@.len());
    assert("coverflow-distant"@[10] != "coverflow-center"@[10]);
}

/// When the focus moves to `idx`, the tile whose preview has to stop: the
/// tile that had the focus, unless the focus stays on it.
pub fn preview_to_stop(old: Option<usize>, idx: usize) -> (r: Option<usize>)
    ensures
        r == (match old {
            Some(o) => if o != idx {
                Some(o)
            } else {
                None
            },
            None => None,
        }),
{
    match old {
        Some(o) => if o != idx {
            Some(o)
        } else {
            None
        },
        None => None,
    }
}

/// The style of a tile by how many tiles lie between it and the focused
/// one: next to it "near", two away "far", three or more away "distant".
pub proof fn coverflow_styles_by_distance(i: int, focused: int)
    ensures
        (coverflow_class_spec(distance(i, focused)) == "coverflow-near"@) <==> (i - focused == 1
            || focused - i == 1),
        (coverflow_class_spec(distance(i, focused)) == "coverflow-far"@) <==> (i - focused == 2
            || focused - i == 2),
        (coverflow_class_spec(distance(i, focused)) == "coverflow-distant"@) <==> (i - focused
            >= 3 || focused - i >= 3),
{
    reveal_strlit("coverflow-center");
    reveal_strlit("coverflow-near");
    reveal_strlit("coverflow-far");
    reveal_strlit("coverflow-distant");
    assert("coverflow-center"@.len() == 16);
    assert("coverflow-near"@.len() == 14);
    assert("coverflow-far"@.len() == 13);
    assert("coverflow-distant"@.len() == 17);
}

/// The tile that starts focused: the first whose video is the monitor's
/// current wallpaper, else the first tile.
pub open spec fn initial_focus_spec(paths: Seq<Seq<char>>, current: Option<Seq<char>>) -> int {
    match current {
        Some(c) => if exists|j: int| 0 <= j < paths.len() && paths[j] == c {
            choose|j: int|
                0 <= j < paths.len() && paths[j] == c && forall|k: int|
                    0 <= k < j ==> paths[k] != c
        } else {
            0
        },
        None => 0,
    }
}

/// The tile that starts focused shows the current wallpaper when the
/// gallery has it, and no earlier tile does; otherwise the first tile
/// starts focused.
pub proof fn focus_starts_on_current_wallpaper(paths: Seq<Seq<char>>, current: Option<Seq<char>>)
    ensures
        forall|c: Seq<char>|
            current == Some(c) && paths.contains(c) ==> {
                let j = initial_focus_spec(paths, current);
                &&& 0 <= j < paths.len()
                &&& paths[j] == c
                &&& forall|k: int| 0 <= k < j ==> paths[k] != c
            },
        current is None || !paths.contains(current->0) ==> initial_focus_spec(paths, current)
            == 0,
{
    if current is Some && paths.contains(current->0) {
        let c = current->0;
        let j0 = choose|j: int| 0 <= j < paths.len() && paths[j] == c;
        lemma_first_occurrence(paths, c, j0);
    }
}

proof fn lemma_first_occurrence(paths: Seq<Seq<char>>, c: Seq<char>, j: int)
    requires
        0 <= j < paths.len(),
        paths[j] == c,
    ensures
        exists|i: int|
            0 <= i < paths.len() && paths[i] == c && forall|k: int| 0 <= k < i ==> paths[k] != c,
    decreases j,
{
    if exists|k: int| 0 <= k < j && paths[k] == c {
        let k = choose|k: int| 0 <= k < j && paths[k] == c;
        lemma_first_occurrence(paths, c, k);
    } else {
        assert(forall|k: int| 0 <= k < j ==> paths[k] != c);
    }
}

pub open spec fn entry_paths(entries: Seq<(VideoEntry, String)>) -> Seq<Seq<char>> {
    entries.map_values(|e: (VideoEntry, String)| e.0.path@)
}

/// The tile that starts focused among the gallery's entries.
pub fn initial_focus(entries: &Vec<(VideoEntry, String)>, current: &Option<String>) -> (r: usize)
    ensures
        r == initial_focus_spec(entry_paths(entries@), view_opt(*current)),
        entries.len() > 0 ==> r < entries.len(),
{
    let ghost paths = entry_paths(entries@);
    match current {
        None => 0,
        Some(c) => {
            let mut i: usize = 0;
            while i < entries.len()
                invariant
                    i <= entries.len(),
                    paths == entry_paths(entries@),
                    paths.len() == entries.len(),
                    view_opt(*current) == Some(c@),
                    forall|k: int| 0 <= k < i ==> paths[k] != c@,
                decreases entries.len() - i,
            {
                if str_eq(entries[i].0.path.as_str(), c.as_str()) {
                    proof {
                        assert(paths[i as int] == entries@[i as int].0.path@);
                        assert(0 <= i < paths.len() && paths[i as int] == c@ && forall|k: int|
                            0 <= k < i ==> paths[k] != c@);
                        let j = choose|j: int|
                            0 <= j < paths.len() && paths[j] == c@ && forall|k: int|
                                0 <= k < j ==> paths[k] != c@;
                        assert(paths[i as int] == c@);
                        if j < i {
                            assert(paths[j] != c@);
                        }
                        if j > i {
                            assert(paths[i as int] != c@);
                        }
                    }
                    return i;
                }
                assert(paths[i as int] == entries@[i as int].0.path@);
                i = i + 1;
            }
            assert(!exists|j: int| 0 <= j < paths.len() && paths[j] == c@);
            0
        },
    }
}

/// Whether a tile's video is the monitor's current wallpaper.
pub fn is_selected(video_path: &str, current: &Option<String>) -> (r: bool)
    ensures
        r == (view_opt(*current) == Some(video_path@)),
{
    match current {
        Some(c) => str_eq(c.as_str(), video_path),
        None => false,
    }
}

/// The wallpaper that a monitor has, if any.
pub fn current_wallpaper(assignments: &MonitorAssignments, monitor: &Option<String>) -> (r: Option<
    String,
>)
    ensures
        match monitor {
            Some(m) => match r {
                Some(v) => assignments@.dom().contains(m@) && assignments@[m@] == v@,
                None => !assignments@.dom().contains(m@),
            },
            None => r is None,
        },
{
    match monitor {
        Some(m) => match assignments.get(m.as_str()) {
            Some(v) => Some(v.clone()),
            None => None,
        },
        None => None,
    }
}

} // verus!
