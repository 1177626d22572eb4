//! The videos of a folder: which directory entries are videos, and the
//! case-insensitive order in which the gallery shows them.
use vstd::prelude::*;
use crate::text::{chars_of, equals_in, lowercase_of, string_of_range, to_lowercase};

verus! {

/// A video of the folder. `modified` is the file's modification time in
/// nanoseconds since the Unix epoch (negative before it).
#[derive(Debug, Clone)]
pub struct VideoEntry {
    pub path: String,
    pub file_name: String,
    pub modified: i128,
}

pub ghost struct VideoModel {
    pub path: Seq<char>,
    pub file_name: Seq<char>,
    pub modified: i128,
}

impl View for VideoEntry {
    type V = VideoModel;

    open spec fn view(&self) -> VideoModel {
        VideoModel { path: self.path@, file_name: self.file_name@, modified: self.modified }
    }
}

/// A field-by-field copy.
pub fn copy_entry(v: &VideoEntry) -> (r: VideoEntry)
    ensures
        r == *v,
{
    VideoEntry { path: v.path.clone(), file_name: v.file_name.clone(), modified: v.modified }
}

/// One entry of the folder as the file system lists it.
pub struct FolderEntry {
    /// The entry's full path.
    pub path: String,
    /// The entry's file name (the last component of `path`).
    pub name: String,
    /// Whether the path leads to a regular file.
    pub is_file: bool,
    /// Its modification time (nanoseconds since the epoch), if it could be read.
    pub modified: Option<i128>,
}

// ---------------------------------------------------------------------
// File names
// ---------------------------------------------------------------------

/// The largest index below `j` that holds a `'.'`, or -1.
pub open spec fn last_dot_before(s: Seq<char>, j: int) -> int
    decreases j,
{
    if j <= 0 {
        -1
    } else if s[j - 1] == '.' {
        j - 1
    } else {
        last_dot_before(s, j - 1)
    }
}

pub open spec fn is_dot_dot(name: Seq<char>) -> bool {
    name == seq!['.', '.']
}

/// The extension of a file name, as `Path::extension` gives it: what
/// follows the last `'.'`, provided that something precedes that dot.
pub open spec fn extension_of(name: Seq<char>) -> Option<Seq<char>> {
    let k = last_dot_before(name, name.len() as int);
    if is_dot_dot(name) || k <= 0 {
        None
    } else {
        Some(name.subrange(k + 1, name.len() as int))
    }
}

/// The stem of a file name, as `Path::file_stem` gives it: the name without
/// its extension and the dot before it.
pub open spec fn stem_of(name: Seq<char>) -> Seq<char> {
    let k = last_dot_before(name, name.len() as int);
    if is_dot_dot(name) || k <= 0 {
        name
    } else {
        name.subrange(0, k)
    }
}

proof fn lemma_last_dot_before(s: Seq<char>, j: int)
    requires
        0 <= j <= s.len(),
    ensures
        -1 <= last_dot_before(s, j) < j,
        last_dot_before(s, j) >= 0 ==> s[last_dot_before(s, j)] == '.',
    decreases j,
{
    if j > 0 && s[j - 1] != '.' {
        lemma_last_dot_before(s, j - 1);
    }
}

/// Where the extension starts: `Some(k)` with the dot at `k`, when there is one.
fn extension_dot(name: &Vec<char>) -> (r: Option<usize>)
    ensures
        match r {
            Some(k) => {
                &&& 0 < k < name.len()
                &&& extension_of(name@) == Some(name@.subrange(k + 1, name.len() as int))
                &&& stem_of(name@) == name@.subrange(0, k as int)
            },
            None => extension_of(name@) is None && stem_of(name@) == name@,
        },
{
    let mut j = name.len();
    while j > 0 && name[j - 1] != '.'
        invariant
            j <= name.len(),
            last_dot_before(name@, name.len() as int) == last_dot_before(name@, j as int),
        decreases j,
    {
        j = j - 1;
    }
    proof {
        lemma_last_dot_before(name@, name.len() as int);
    }
    if j <= 1 {
        return None;
    }
    if equals_in(name, 0, name.len(), &vec!['.', '.']) {
        assert(name@.subrange(0, name.len() as int) =~= name@);
        return None;
    }
    assert(name@.subrange(0, name.len() as int) =~= name@);
    Some(j - 1)
}

/// The extensions of the videos the gallery shows.
pub open spec fn is_supported_extension(ext: Seq<char>) -> bool {
    ext == seq!['m', 'p', '4'] || ext == seq!['m', 'k', 'v'] || ext == seq!['w', 'e', 'b', 'm']
}

/// The video that a folder entry is, if it is one: a regular file whose
/// extension, lowercased, is supported, and whose modification time is known.
pub open spec fn video_of(e: FolderEntry) -> Option<VideoModel> {
    if !e.is_file {
        None
    } else {
        match extension_of(e.name@) {
            None => None,
            Some(ext) => if is_supported_extension(lowercase_of(ext)) {
                match e.modified {
                    Some(m) => Some(
                        VideoModel { path: e.path@, file_name: stem_of(e.name@), modified: m },
                    ),
                    None => None,
                }
            } else {
                None
            },
        }
    }
}

/// The videos among the entries, in the order listed.
pub open spec fn videos_of(es: Seq<FolderEntry>) -> Seq<VideoModel>
    decreases es.len(),
{
    if es.len() == 0 {
        Seq::empty()
    } else {
        match video_of(es.last()) {
            Some(v) => videos_of(es.drop_last()).push(v),
            None => videos_of(es.drop_last()),
        }
    }
}

fn video_from_entry(e: &FolderEntry) -> (r: Option<VideoEntry>)
    ensures
        match r {
            Some(v) => video_of(*e) == Some(v@),
            None => video_of(*e) is None,
        },
{
    if !e.is_file {
        return None;
    }
    let name = chars_of(e.name.as_str());
    let k = match extension_dot(&name) {
        None => return None,
        Some(k) => k,
    };
    let ext = string_of_range(&name, k + 1, name.len());
    let lower = to_lowercase(ext.as_str());
    let l = chars_of(lower.as_str());
    let supported = equals_in(&l, 0, l.len(), &vec!['m', 'p', '4']) || equals_in(
        &l,
        0,
        l.len(),
        &vec!['m', 'k', 'v'],
    ) || equals_in(&l, 0, l.len(), &vec!['w', 'e', 'b', 'm']);
    assert(l@.subrange(0, l@.len() as int) =~= l@);
    if !supported {
        return None;
    }
    match e.modified {
        None => None,
        Some(m) => Some(
            VideoEntry { path: e.path.clone(), file_name: string_of_range(&name, 0, k), modified: m },
        ),
    }
}

// ---------------------------------------------------------------------
// Ordering
// ---------------------------------------------------------------------

/// Lexicographic order of character sequences by code point, which is the
/// order of `String`'s `Ord` (UTF-8 bytes compare as code points do).
pub open spec fn seq_le(a: Seq<char>, b: Seq<char>) -> bool
    decreases a.len(),
{
    if a.len() == 0 {
        true
    } else if b.len() == 0 {
        false
    } else if (a[0] as u32) != (b[0] as u32) {
        (a[0] as u32) < (b[0] as u32)
    } else {
        seq_le(a.drop_first(), b.drop_first())
    }
}

pub proof fn lemma_seq_le_total(a: Seq<char>, b: Seq<char>)
    ensures
        seq_le(a, b) || seq_le(b, a),
    decreases a.len(),
{
    if a.len() > 0 && b.len() > 0 && (a[0] as u32) == (b[0] as u32) {
        lemma_seq_le_total(a.drop_first(), b.drop_first());
    }
}

pub proof fn lemma_seq_le_transitive(a: Seq<char>, b: Seq<char>, c: Seq<char>)
    requires
        seq_le(a, b),
        seq_le(b, c),
    ensures
        seq_le(a, c),
    decreases a.len(),
{
    if a.len() > 0 && b.len() > 0 && c.len() > 0 && (a[0] as u32) == (b[0] as u32) && (b[0] as u32)
        == (c[0] as u32) {
        lemma_seq_le_transitive(a.drop_first(), b.drop_first(), c.drop_first());
    }
}

/// The key by which the gallery orders videos: the lowercased file name.
pub open spec fn sort_key(v: VideoModel) -> Seq<char> {
    lowercase_of(v.file_name)
}

/// `p` shows `r` to be `s` sorted by key, stably: `r[j]` is `s[p[j]]`, `p`
/// is a permutation, keys do not decrease along `r`, and videos of equal key
/// keep their order.
pub open spec fn is_sorting_permutation(r: Seq<VideoModel>, s: Seq<VideoModel>, p: Seq<int>) -> bool {
    &&& r.len() == s.len()
    &&& p.len() == s.len()
    &&& forall|j: int| 0 <= j < r.len() ==> 0 <= #[trigger] p[j] < s.len() && r[j] == s[p[j]]
    &&& forall|j: int, l: int| 0 <= j < l < r.len() ==> #[trigger] p[j] != #[trigger] p[l]
    &&& forall|j: int, l: int|
        0 <= j < l < r.len() ==> seq_le(sort_key(#[trigger] r[j]), sort_key(#[trigger] r[l]))
    &&& forall|j: int, l: int|
        0 <= j < l < r.len() && sort_key(#[trigger] r[j]) == sort_key(#[trigger] r[l]) ==> p[j]
            < p[l]
}

/// `r` is `s` stably sorted by key.
pub open spec fn is_stable_sort_of(r: Seq<VideoModel>, s: Seq<VideoModel>) -> bool {
    exists|p: Seq<int>| is_sorting_permutation(r, s, p)
}

pub open spec fn views_of(v: Seq<VideoEntry>) -> Seq<VideoModel> {
    v.map_values(|e: VideoEntry| e@)
}

/// Whether `a <= b` in `seq_le` order.
fn chars_le(a: &Vec<char>, b: &Vec<char>) -> (r: bool)
    ensures
        r == seq_le(a@, b@),
{
    let mut i: usize = 0;
    assert(a@.skip(0) =~= a@);
    assert(b@.skip(0) =~= b@);
    while i < a.len() && i < b.len() && (a[i] as u32) == (b[i] as u32)
        invariant
            i <= a.len(),
            i <= b.len(),
            seq_le(a@, b@) == seq_le(a@.skip(i as int), b@.skip(i as int)),
        decreases a.len() - i,
    {
        assert(a@.skip(i as int).drop_first() =~= a@.skip(i + 1));
        assert(b@.skip(i as int).drop_first() =~= b@.skip(i + 1));
        i = i + 1;
    }
    if i == a.len() {
        true
    } else if i == b.len() {
        false
    } else {
        (a[i] as u32) < (b[i] as u32)
    }
}

proof fn lemma_insert_keeps_sorting(
    r: Seq<VideoModel>,
    s: Seq<VideoModel>,
    p: Seq<int>,
    pos: int,
    x: VideoModel,
)
    requires
        is_sorting_permutation(r, s, p),
        0 <= pos <= r.len(),
        forall|j: int| 0 <= j < pos ==> seq_le(sort_key(#[trigger] r[j]), sort_key(x)),
        pos < r.len() ==> !seq_le(sort_key(r[pos]), sort_key(x)),
    ensures
        is_sorting_permutation(r.insert(pos, x), s.push(x), p.insert(pos, s.len() as int)),
{
    let n = s.len() as int;
    let r2 = r.insert(pos, x);
    let p2 = p.insert(pos, n);
    let s2 = s.push(x);
    let kx = sort_key(x);
    lemma_seq_le_total(kx, kx);
    assert forall|l: int| pos <= l < r.len() implies !seq_le(sort_key(#[trigger] r[l]), kx) by {
        if l > pos && seq_le(sort_key(r[l]), kx) {
            assert(seq_le(sort_key(r[pos]), sort_key(r[l])));
            lemma_seq_le_transitive(sort_key(r[pos]), sort_key(r[l]), kx);
        }
    }
    assert forall|j: int| 0 <= j < r2.len() implies 0 <= #[trigger] p2[j] < s2.len() && r2[j]
        == s2[p2[j]] by {
        if j < pos {
            assert(r2[j] == r[j] && p2[j] == p[j]);
        } else if j > pos {
            assert(r2[j] == r[j - 1] && p2[j] == p[j - 1]);
        }
    }
    assert forall|j: int, l: int| 0 <= j < l < r2.len() implies #[trigger] p2[j]
        != #[trigger] p2[l] by {
        if j != pos && l != pos {
            let jj = if j < pos {
                j
            } else {
                j - 1
            };
            let ll = if l < pos {
                l
            } else {
                l - 1
            };
            assert(p2[j] == p[jj] && p2[l] == p[ll]);
            assert(p[jj] != p[ll]);
        } else if j == pos {
            assert(p2[l] == p[l - 1]);
            assert(0 <= p[l - 1] < n);
        } else {
            assert(p2[j] == p[j]);
            assert(0 <= p[j] < n);
        }
    }
    assert forall|j: int, l: int| 0 <= j < l < r2.len() implies seq_le(
        sort_key(#[trigger] r2[j]),
        sort_key(#[trigger] r2[l]),
    ) && (sort_key(r2[j]) == sort_key(r2[l]) ==> p2[j] < p2[l]) by {
        if l < pos {
            assert(r2[j] == r[j] && r2[l] == r[l]);
            assert(p2[j] == p[j] && p2[l] == p[l]);
        } else if l == pos {
            assert(r2[j] == r[j]);
            assert(seq_le(sort_key(r[j]), kx));
            assert(p2[j] == p[j]);
            assert(0 <= p[j] < n);
        } else if j < pos {
            assert(r2[j] == r[j] && r2[l] == r[l - 1]);
            assert(p2[j] == p[j] && p2[l] == p[l - 1]);
            assert(!seq_le(sort_key(r[l - 1]), kx));
            lemma_seq_le_total(kx, sort_key(r[l - 1]));
            lemma_seq_le_transitive(sort_key(r[j]), kx, sort_key(r[l - 1]));
            if sort_key(r[j]) == sort_key(r[l - 1]) {
                assert(j < l - 1);
            }
        } else if j == pos {
            assert(r2[l] == r[l - 1]);
            assert(!seq_le(sort_key(r[l - 1]), kx));
            lemma_seq_le_total(kx, sort_key(r[l - 1]));
            lemma_seq_le_total(sort_key(r[l - 1]), sort_key(r[l - 1]));
        } else {
            assert(r2[j] == r[j - 1] && r2[l] == r[l - 1]);
            assert(p2[j] == p[j - 1] && p2[l] == p[l - 1]);
        }
    }
}

/// Sorts videos by lowercased file name, stably (as `sort_by` on the
/// lowercased names does).
pub fn sort_videos(videos: &Vec<VideoEntry>) -> (r: Vec<VideoEntry>)
    ensures
        is_stable_sort_of(views_of(r@), views_of(videos@)),
{
    let ghost s = views_of(videos@);
    let mut out: Vec<VideoEntry> = Vec::new();
    let mut keys: Vec<Vec<char>> = Vec::new();
    let ghost mut p: Seq<int> = Seq::empty();
    let mut i: usize = 0;
    assert(is_sorting_permutation(views_of(out@), s.take(0), p));
    while i < videos.len()
        invariant
            i <= videos.len(),
            s == views_of(videos@),
            out.len() == i,
            keys.len() == i,
            forall|j: int| 0 <= j < i ==> (#[trigger] keys@[j])@ == sort_key(out@[j]@),
            is_sorting_permutation(views_of(out@), s.take(i as int), p),
        decreases videos.len() - i,
    {
        let v = copy_entry(&videos[i]);
        let lower = to_lowercase(v.file_name.as_str());
        let k = chars_of(lower.as_str());
        let mut pos: usize = 0;
        while pos < out.len() && chars_le(&keys[pos], &k)
            invariant
                pos <= out.len(),
                out.len() == keys.len(),
                forall|j: int| 0 <= j < out.len() ==> (#[trigger] keys@[j])@ == sort_key(out@[j]@),
                forall|j: int| 0 <= j < pos ==> seq_le(sort_key(#[trigger] out@[j]@), k@),
            decreases out.len() - pos,
        {
            pos = pos + 1;
        }
        proof {
            let r = views_of(out@);
            assert forall|j: int| 0 <= j < pos implies seq_le(sort_key(#[trigger] r[j]), sort_key(v@)) by {
                assert(r[j] == out@[j]@);
            }
            if pos < out.len() {
                assert(r[pos as int] == out@[pos as int]@);
            }
            lemma_insert_keeps_sorting(r, s.take(i as int), p, pos as int, v@);
            assert(s.take(i as int).push(v@) =~= s.take(i + 1));
            p = p.insert(pos as int, i as int);
        }
        let ghost old_out = out@;
        let ghost old_keys = keys@;
        out.insert(pos, v);
        keys.insert(pos, k);
        proof {
            assert(views_of(out@) =~= views_of(old_out).insert(pos as int, v@));
            assert forall|j: int| 0 <= j < i + 1 implies (#[trigger] keys@[j])@ == sort_key(out@[j]@) by {
                if j < pos {
                    assert(keys@[j] == old_keys[j] && out@[j] == old_out[j]);
                } else if j > pos {
                    assert(keys@[j] == old_keys[j - 1] && out@[j] == old_out[j - 1]);
                }
            }
        }
        i = i + 1;
    }
    assert(s.take(i as int) =~= s);
    out
}

proof fn lemma_videos_of_origin(es: Seq<FolderEntry>, k: int)
    requires
        0 <= k < videos_of(es).len(),
    ensures
        exists|i: int| 0 <= i < es.len() && video_of(#[trigger] es[i]) == Some(videos_of(es)[k]),
    decreases es.len(),
{
    let rest = videos_of(es.drop_last());
    if k < rest.len() {
        lemma_videos_of_origin(es.drop_last(), k);
        let i = choose|i: int|
            0 <= i < es.len() - 1 && video_of(#[trigger] es.drop_last()[i]) == Some(rest[k]);
        assert(es[i] == es.drop_last()[i]);
        match video_of(es.last()) {
            Some(v) => assert(videos_of(es)[k] == rest[k]),
            None => {},
        }
    } else {
        assert(video_of(es[es.len() - 1]) == Some(videos_of(es)[k]));
    }
}

/// `v` is the video of a regular file of the listing with a supported
/// extension (compared in lowercase) and a known modification time.
pub open spec fn listed_video(entries: Seq<FolderEntry>, v: VideoModel) -> bool {
    exists|i: int|
        #![trigger entries[i]]
        0 <= i < entries.len() && entries[i].is_file && entries[i].modified == Some(v.modified)
            && v.path == entries[i].path@ && v.file_name == stem_of(entries[i].name@)
            && extension_of(entries[i].name@) is Some && is_supported_extension(
            lowercase_of(extension_of(entries[i].name@)->0),
        )
}

/// What a scan gives: only videos of the listing with a supported extension,
/// in case-insensitive order of their names.
pub proof fn scan_gives_supported_videos_in_order(entries: Seq<FolderEntry>, r: Seq<VideoModel>)
    requires
        is_stable_sort_of(r, videos_of(entries)),
    ensures
        forall|j: int| 0 <= j < r.len() ==> listed_video(entries, #[trigger] r[j]),
        forall|j: int, l: int|
            0 <= j < l < r.len() ==> seq_le(sort_key(#[trigger] r[j]), sort_key(#[trigger] r[l])),
{
    let s = videos_of(entries);
    let p = choose|p: Seq<int>| is_sorting_permutation(r, s, p);
    assert forall|j: int| 0 <= j < r.len() implies listed_video(entries, #[trigger] r[j]) by {
        assert(0 <= p[j] < s.len() && r[j] == s[p[j]]);
        lemma_videos_of_origin(entries, p[j]);
        let i = choose|i: int|
            0 <= i < entries.len() && video_of(#[trigger] entries[i]) == Some(s[p[j]]);
        assert(video_of(entries[i]) == Some(r[j]));
    }
}

/// The videos of a folder listing, sorted by lowercased file name (entries
/// whose names compare equal keep the listing's order).
pub fn scan_folder(entries: &Vec<FolderEntry>) -> (r: Vec<VideoEntry>)
    ensures
        is_stable_sort_of(views_of(r@), videos_of(entries@)),
{
    let mut found: Vec<VideoEntry> = Vec::new();
    let mut i: usize = 0;
    while i < entries.len()
        invariant
            i <= entries.len(),
            views_of(found@) == videos_of(entries@.take(i as int)),
        decreases entries.len() - i,
    {
        assert(entries@.take(i + 1).drop_last() =~= entries@.take(i as int));
        let ghost before = found@;
        match video_from_entry(&entries[i]) {
            Some(v) => {
                found.push(v);
                assert(views_of(found@) =~= views_of(before).push(v@));
            },
            None => {},
        }
        i = i + 1;
    }
    assert(entries@.take(i as int) =~= entries@);
    sort_videos(&found)
}

} // verus!
