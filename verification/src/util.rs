//! Where the application keeps its files: the user directories that the
//! `dirs` crate reports, and the paths built under them.
use vstd::prelude::*;
use vstd::string::*;
use crate::text::{chars_of, concat, push_char, starts_with_seq};

verus! {

/// Joining a relative or absolute path onto a base, as `PathBuf::join` does
/// on Unix: an absolute part replaces the base, otherwise a `'/'` separates
/// the two unless the base is empty or already ends with one.
pub open spec fn join_spec(base: Seq<char>, part: Seq<char>) -> Seq<char> {
    if part.len() > 0 && part[0] == '/' {
        part
    } else if base.len() == 0 || base.last() == '/' {
        base + part
    } else {
        base + seq!['/'] + part
    }
}

pub fn join_path(base: &str, part: &str) -> (r: String)
    ensures
        r@ == join_spec(base@, part@),
{
    let p = chars_of(part);
    if p.len() > 0 && p[0] == '/' {
        return String::from_str(part);
    }
    let b = chars_of(base);
    if b.len() == 0 || b[b.len() - 1] == '/' {
        concat(base, part)
    } else {
        let mut r = String::from_str(base);
        push_char(&mut r, '/');
        r.append(part);
        r
    }
}

/// The path held in `p`, or the fallback `d`.
pub open spec fn or_default(p: Option<Seq<char>>, d: Seq<char>) -> Seq<char> {
    match p {
        Some(s) => s,
        None => d,
    }
}

pub open spec fn view_opt(p: Option<String>) -> Option<Seq<char>> {
    match p {
        Some(s) => Some(s@),
        None => None,
    }
}

fn path_or(p: Option<String>, d: &str) -> (r: String)
    ensures
        r@ == or_default(view_opt(p), d@),
{
    match p {
        Some(s) => s,
        None => String::from_str(d),
    }
}

// ---------------------------------------------------------------------
// The user directories
// ---------------------------------------------------------------------

/// `dirs::config_dir`, as a string (non-UTF-8 parts replaced). It reads the
/// environment (`XDG_CONFIG_HOME`, `HOME`), so nothing is stated of it.
#[verifier::external_body]
fn user_config_dir() -> Option<String> {
    match dirs::config_dir() {
        Some(p) => Some(p.to_string_lossy().into_owned()),
        None => None,
    }
}

/// `dirs::cache_dir`, as a string (non-UTF-8 parts replaced). It reads the
/// environment (`XDG_CACHE_HOME`, `HOME`), so nothing is stated of it.
#[verifier::external_body]
fn user_cache_dir() -> Option<String> {
    match dirs::cache_dir() {
        Some(p) => Some(p.to_string_lossy().into_owned()),
        None => None,
    }
}

/// `dirs::state_dir`, as a string (non-UTF-8 parts replaced). It reads the
/// environment (`XDG_STATE_HOME`, `HOME`), so nothing is stated of it.
#[verifier::external_body]
fn user_state_dir() -> Option<String> {
    match dirs::state_dir() {
        Some(p) => Some(p.to_string_lossy().into_owned()),
        None => None,
    }
}

/// `dirs::home_dir`, as a string (non-UTF-8 parts replaced). It reads the
/// environment and the password database, so nothing is stated of it.
#[verifier::external_body]
fn user_home_dir() -> Option<String> {
    match dirs::home_dir() {
        Some(p) => Some(p.to_string_lossy().into_owned()),
        None => None,
    }
}

// ---------------------------------------------------------------------
// The application's directories
// ---------------------------------------------------------------------

pub open spec fn config_dir_at(base: Option<Seq<char>>) -> Seq<char> {
    join_spec(or_default(base, "~/.config"@), "video-wallpaper"@)
}

/// The configuration directory under a given user config directory.
pub fn config_dir_under(base: Option<String>) -> (r: String)
    ensures
        r@ == config_dir_at(view_opt(base)),
{
    let b = path_or(base, "~/.config");
    join_path(b.as_str(), "video-wallpaper")
}

/// The application's configuration directory.
pub fn config_dir() -> (r: String)
    ensures
        exists|b: Option<Seq<char>>| r@ == #[trigger] config_dir_at(b),
{
    config_dir_under(user_config_dir())
}

/// The configuration file.
pub fn config_path() -> (r: String)
    ensures
        exists|b: Option<Seq<char>>| r@ == join_spec(#[trigger] config_dir_at(b), "config.toml"@),
{
    let d = config_dir();
    join_path(d.as_str(), "config.toml")
}

pub open spec fn cache_dir_at(base: Option<Seq<char>>) -> Seq<char> {
    join_spec(or_default(base, "~/.cache"@), "video-wallpaper"@)
}

/// The cache directory under a given user cache directory.
pub fn cache_dir_under(base: Option<String>) -> (r: String)
    ensures
        r@ == cache_dir_at(view_opt(base)),
{
    let b = path_or(base, "~/.cache");
    join_path(b.as_str(), "video-wallpaper")
}

/// The application's cache directory.
pub fn cache_dir() -> (r: String)
    ensures
        exists|b: Option<Seq<char>>| r@ == #[trigger] cache_dir_at(b),
{
    cache_dir_under(user_cache_dir())
}

/// Where thumbnails are kept.
pub fn thumbnail_dir() -> (r: String)
    ensures
        exists|b: Option<Seq<char>>| r@ == join_spec(#[trigger] cache_dir_at(b), "thumbnails"@),
{
    let d = cache_dir();
    join_path(d.as_str(), "thumbnails")
}

/// Where frames taken from videos are kept.
pub fn frames_dir() -> (r: String)
    ensures
        exists|b: Option<Seq<char>>| r@ == join_spec(#[trigger] cache_dir_at(b), "frames"@),
{
    let d = cache_dir();
    join_path(d.as_str(), "frames")
}

/// The frame that is handed to caelestia for its colour scheme.
pub fn current_frame_path() -> (r: String)
    ensures
        exists|b: Option<Seq<char>>|
            r@ == join_spec(
                join_spec(#[trigger] cache_dir_at(b), "frames"@),
                "current_frame.png"@,
            ),
{
    let d = frames_dir();
    join_path(d.as_str(), "current_frame.png")
}

/// caelestia's state directory: under the user state directory, else under
/// `.local/state` of the home directory (or of `/tmp`).
pub open spec fn caelestia_state_dir_at(
    state: Option<Seq<char>>,
    home: Option<Seq<char>>,
) -> Seq<char> {
    let base = match state {
        Some(s) => s,
        None => join_spec(or_default(home, "/tmp"@), ".local/state"@),
    };
    join_spec(base, "caelestia"@)
}

pub fn caelestia_state_dir_under(state: Option<String>, home: Option<String>) -> (r: String)
    ensures
        r@ == caelestia_state_dir_at(view_opt(state), view_opt(home)),
{
    let base = match state {
        Some(s) => s,
        None => {
            let h = path_or(home, "/tmp");
            join_path(h.as_str(), ".local/state")
        },
    };
    join_path(base.as_str(), "caelestia")
}

/// caelestia's state directory; the home directory is only asked for when
/// there is no user state directory.
pub fn caelestia_state_dir() -> (r: String)
    ensures
        exists|s: Option<Seq<char>>, h: Option<Seq<char>>|
            r@ == #[trigger] caelestia_state_dir_at(s, h),
{
    let state = user_state_dir();
    let home = if state.is_none() {
        user_home_dir()
    } else {
        None
    };
    caelestia_state_dir_under(state, home)
}

/// caelestia's colour scheme file.
pub fn scheme_json_path() -> (r: String)
    ensures
        exists|s: Option<Seq<char>>, h: Option<Seq<char>>|
            r@ == join_spec(#[trigger] caelestia_state_dir_at(s, h), "scheme.json"@),
{
    let d = caelestia_state_dir();
    join_path(d.as_str(), "scheme.json")
}

pub open spec fn default_video_folder_at(home: Option<Seq<char>>) -> Seq<char> {
    join_spec(or_default(home, "/tmp"@), "VideoWallpapers"@)
}

pub fn default_video_folder_under(home: Option<String>) -> (r: String)
    ensures
        r@ == default_video_folder_at(view_opt(home)),
{
    let h = path_or(home, "/tmp");
    join_path(h.as_str(), "VideoWallpapers")
}

/// The video folder used until the user picks one.
pub fn default_video_folder() -> (r: String)
    ensures
        exists|h: Option<Seq<char>>| r@ == #[trigger] default_video_folder_at(h),
{
    default_video_folder_under(user_home_dir())
}

/// Joining a relative part onto a base keeps the base in front and the part
/// at the end, with at most one `'/'` between them.
pub proof fn join_keeps_base_and_part(base: Seq<char>, part: Seq<char>)
    requires
        part.len() > 0,
        part[0] != '/',
    ensures
        starts_with_seq(join_spec(base, part), base),
        join_spec(base, part).len() >= part.len(),
        join_spec(base, part).subrange(
            join_spec(base, part).len() - part.len(),
            join_spec(base, part).len() as int,
        ) == part,
        base.len() + part.len() <= join_spec(base, part).len() <= base.len() + part.len() + 1,
{
    let j = join_spec(base, part);
    if base.len() == 0 || base.last() == '/' {
        assert(j.subrange(0, base.len() as int) =~= base);
        assert(j.subrange(j.len() - part.len(), j.len() as int) =~= part);
    } else {
        assert(j.subrange(0, base.len() as int) =~= base);
        assert(j.subrange(j.len() - part.len(), j.len() as int) =~= part);
    }
}

/// The application's directories lie under the user directories that are
/// given (the home directory only where there is no state directory).
pub proof fn app_dirs_lie_under_user_dirs(b: Seq<char>, other: Option<Seq<char>>)
    ensures
        starts_with_seq(config_dir_at(Some(b)), b),
        starts_with_seq(cache_dir_at(Some(b)), b),
        starts_with_seq(default_video_folder_at(Some(b)), b),
        starts_with_seq(caelestia_state_dir_at(Some(b), other), b),
        starts_with_seq(caelestia_state_dir_at(None, Some(b)), b),
{
    reveal_strlit("video-wallpaper");
    reveal_strlit("VideoWallpapers");
    reveal_strlit("caelestia");
    reveal_strlit(".local/state");
    join_keeps_base_and_part(b, "video-wallpaper"@);
    join_keeps_base_and_part(b, "VideoWallpapers"@);
    join_keeps_base_and_part(b, "caelestia"@);
    join_keeps_base_and_part(b, ".local/state"@);
    let st = join_spec(b, ".local/state"@);
    join_keeps_base_and_part(st, "caelestia"@);
    let j = join_spec(st, "caelestia"@);
    assert(j.subrange(0, b.len() as int) =~= st.subrange(0, b.len() as int));
}

/// Where the user directory is not known, the application's directories
/// fall back to fixed places.
pub proof fn app_dirs_fall_back()
    ensures
        config_dir_at(None) == "~/.config/video-wallpaper"@,
        cache_dir_at(None) == "~/.cache/video-wallpaper"@,
        default_video_folder_at(None) == "/tmp/VideoWallpapers"@,
        caelestia_state_dir_at(None, None) == "/tmp/.local/state/caelestia"@,
{
    assert(config_dir_at(None) =~= "~/.config/video-wallpaper"@) by {
        reveal_strlit("video-wallpaper");
        reveal_strlit("~/.config");
        reveal_strlit("~/.config/video-wallpaper");
    }
    assert(cache_dir_at(None) =~= "~/.cache/video-wallpaper"@) by {
        reveal_strlit("video-wallpaper");
        reveal_strlit("~/.cache");
        reveal_strlit("~/.cache/video-wallpaper");
    }
    assert(default_video_folder_at(None) =~= "/tmp/VideoWallpapers"@) by {
        reveal_strlit("VideoWallpapers");
        reveal_strlit("/tmp");
        reveal_strlit("/tmp/VideoWallpapers");
    }
    assert(join_spec("/tmp"@, ".local/state"@) =~= "/tmp/.local/state"@) by {
        reveal_strlit(".local/state");
        reveal_strlit("/tmp");
        reveal_strlit("/tmp/.local/state");
    }
    assert(caelestia_state_dir_at(None, None) =~= "/tmp/.local/state/caelestia"@) by {
        reveal_strlit("caelestia");
        reveal_strlit("/tmp/.local/state");
        reveal_strlit("/tmp/.local/state/caelestia");
    }
}

} // verus!
