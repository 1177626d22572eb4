//! Thumbnails of the videos: where each one is kept, when it has to be made
//! again, and which videos keep a tile once thumbnails have been made.
use vstd::prelude::*;
use vstd::string::*;
use crate::text::{
    hex_digits, hex_u64, lemma_hex_digits_injective, lemma_hex_digits_len, lemma_pow16_16,
    string_of_chars,
};
use crate::util::{cache_dir_at, join_path, join_spec, thumbnail_dir};
use crate::video_scanner::{copy_entry, VideoEntry, VideoModel};

verus! {

/// What `DefaultHasher::new()` gives after hashing the string. SipHash with
/// fixed keys: the same string gives the same value in every process built
/// with the same Rust release.
pub uninterp spec fn default_hash_of(s: Seq<char>) -> u64;

/// Hashes a string with std's `DefaultHasher` (through `BuildHasher::hash_one`
/// of `BuildHasherDefault<DefaultHasher>`, which starts from
/// `DefaultHasher::default()`, the same state as `DefaultHasher::new()`).
#[verifier::external_body]
fn hash_text(s: &str) -> (h: u64)
    ensures
        h == default_hash_of(s@),
{
    std::hash::BuildHasher::hash_one(
        &std::hash::BuildHasherDefault::<std::collections::hash_map::DefaultHasher>::default(),
        s,
    )
}

/// The file name of the thumbnail for a video whose path hashes to `hash`:
/// sixteen lowercase hexadecimal digits and `.jpg`.
pub open spec fn thumbnail_name(hash: u64) -> Seq<char> {
    hex_digits(hash as nat, 16) + ".jpg"@
}

/// The thumbnail of `video_path` inside the thumbnail directory `dir`.
pub open spec fn thumbnail_path_at(dir: Seq<char>, video_path: Seq<char>) -> Seq<char> {
    join_spec(dir, thumbnail_name(default_hash_of(video_path)))
}

pub fn thumbnail_file_name(hash: u64) -> (r: String)
    ensures
        r@ == thumbnail_name(hash),
{
    let digits = hex_u64(hash, 16);
    let mut r = string_of_chars(&digits);
    r.append(".jpg");
    r
}

/// The thumbnail of `video_path` inside the directory `dir`.
pub fn thumbnail_path_in(dir: &str, video_path: &str) -> (r: String)
    ensures
        r@ == thumbnail_path_at(dir@, video_path@),
{
    let name = thumbnail_file_name(hash_text(video_path));
    join_path(dir, name.as_str())
}

/// The thumbnail of a video, inside the application's thumbnail directory.
pub fn thumbnail_path_for(video_path: &str) -> (r: String)
    ensures
        exists|b: Option<Seq<char>>|
            r@ == thumbnail_path_at(
                join_spec(#[trigger] cache_dir_at(b), "thumbnails"@),
                video_path@,
            ),
{
    let dir = thumbnail_dir();
    thumbnail_path_in(dir.as_str(), video_path)
}

/// In one directory, two videos share a thumbnail exactly when their paths
/// hash alike; in particular the same path always gives the same thumbnail.
pub proof fn thumbnail_path_distinct(dir: Seq<char>, a: Seq<char>, b: Seq<char>)
    ensures
        (thumbnail_path_at(dir, a) == thumbnail_path_at(dir, b)) <==> (default_hash_of(a)
            == default_hash_of(b)),
{
    let ha = default_hash_of(a);
    let hb = default_hash_of(b);
    let na = thumbnail_name(ha);
    let nb = thumbnail_name(hb);
    lemma_hex_digits_len(ha as nat, 16);
    lemma_hex_digits_len(hb as nat, 16);
    if thumbnail_path_at(dir, a) == thumbnail_path_at(dir, b) {
        assert(na[0] == hex_digits(ha as nat, 16)[0]);
        assert(nb[0] == hex_digits(hb as nat, 16)[0]);
        let pa = join_spec(dir, na);
        let pb = join_spec(dir, nb);
        let k = pa.len() - na.len();
        assert(na =~= pa.subrange(k, pa.len() as int));
        assert(nb =~= pb.subrange(k, pb.len() as int));
        assert(hex_digits(ha as nat, 16) =~= na.subrange(0, 16));
        assert(hex_digits(hb as nat, 16) =~= nb.subrange(0, 16));
        lemma_pow16_16();
        lemma_hex_digits_injective(ha as nat, hb as nat, 16);
    }
}

/// A thumbnail's name always ends in `.jpg`.
pub proof fn thumbnail_path_is_jpg(dir: Seq<char>, video_path: Seq<char>)
    ensures
        ({
            let p = thumbnail_path_at(dir, video_path);
            p.len() >= 4 && p.subrange(p.len() - 4, p.len() as int) == ".jpg"@
        }),
{
    reveal_strlit(".jpg");
    let n = thumbnail_name(default_hash_of(video_path));
    lemma_hex_digits_len(default_hash_of(video_path) as nat, 16);
    assert(n[0] == hex_digits(default_hash_of(video_path) as nat, 16)[0]);
    let p = thumbnail_path_at(dir, video_path);
    assert(p.subrange(p.len() - 4, p.len() as int) =~= ".jpg"@) by {
        assert(n.subrange(n.len() - 4, n.len() as int) =~= ".jpg"@);
    }
}

// ---------------------------------------------------------------------
// Regeneration
// ---------------------------------------------------------------------

/// What is known of a video's thumbnail file.
#[derive(Debug, Clone, Copy, PartialEq, Eq, Structural)]
pub enum ThumbnailState {
    /// There is no thumbnail file.
    Missing,
    /// The file exists but its modification time could not be read.
    Unreadable,
    /// The file was last modified at this time (nanoseconds since the epoch).
    Modified(i128),
}

/// A thumbnail is made again when it is missing, when its age is unknown,
/// or when the video is newer than it.
pub open spec fn needs_generation_spec(video_modified: i128, thumbnail: ThumbnailState) -> bool {
    match thumbnail {
        ThumbnailState::Missing => true,
        ThumbnailState::Unreadable => true,
        ThumbnailState::Modified(t) => video_modified > t,
    }
}

pub fn needs_generation(video: &VideoEntry, thumbnail: &ThumbnailState) -> (b: bool)
    ensures
        b == needs_generation_spec(video.modified, *thumbnail),
{
    match thumbnail {
        ThumbnailState::Missing => true,
        ThumbnailState::Unreadable => true,
        ThumbnailState::Modified(t) => video.modified > *t,
    }
}

/// Which thumbnails have to be made: `states[i]` describes the thumbnail of
/// `videos[i]`.
pub fn thumbnails_to_generate(videos: &Vec<VideoEntry>, states: &Vec<ThumbnailState>) -> (r: Vec<
    bool,
>)
    requires
        videos.len() == states.len(),
    ensures
        r.len() == videos.len(),
        forall|i: int|
            0 <= i < videos.len() ==> #[trigger] r@[i] == needs_generation_spec(
                videos@[i].modified,
                states@[i],
            ),
{
    let mut r: Vec<bool> = Vec::new();
    let mut i: usize = 0;
    while i < videos.len()
        invariant
            i <= videos.len() == states.len(),
            r.len() == i,
            forall|j: int|
                0 <= j < i ==> #[trigger] r@[j] == needs_generation_spec(
                    videos@[j].modified,
                    states@[j],
                ),
        decreases videos.len() - i,
    {
        r.push(needs_generation(&videos[i], &states[i]));
        i = i + 1;
    }
    r
}

/// The gallery's videos with their thumbnails, in order: a video stays when
/// its thumbnail is up to date (`states`) or was just made (`made`, which
/// counts only where the thumbnail had to be made), and its thumbnail is
/// the video's own file in the thumbnail directory `dir`.
pub open spec fn kept_thumbnails(
    dir: Seq<char>,
    vs: Seq<VideoEntry>,
    states: Seq<ThumbnailState>,
    made: Seq<bool>,
) -> Seq<(VideoModel, Seq<char>)>
    decreases vs.len(),
{
    if vs.len() == 0 || states.len() == 0 || made.len() == 0 {
        Seq::empty()
    } else {
        let rest = kept_thumbnails(dir, vs.drop_last(), states.drop_last(), made.drop_last());
        let v = vs.last();
        if !needs_generation_spec(v.modified, states.last()) || made.last() {
            rest.push((v@, thumbnail_path_at(dir, v.path@)))
        } else {
            rest
        }
    }
}

pub open spec fn pair_views(r: Seq<(VideoEntry, String)>) -> Seq<(VideoModel, Seq<char>)> {
    r.map_values(|p: (VideoEntry, String)| (p.0@, p.1@))
}

/// Pairs each video with its thumbnail in `thumbnail_dir`, leaving out the
/// videos whose thumbnail had to be made and could not be (`generated[i]`
/// tells whether making the thumbnail of `videos[i]` succeeded).
pub fn ensure_thumbnails(
    videos: &Vec<VideoEntry>,
    thumbnail_dir: &str,
    states: &Vec<ThumbnailState>,
    generated: &Vec<bool>,
) -> (r: Vec<(VideoEntry, String)>)
    requires
        videos.len() == states.len(),
        videos.len() == generated.len(),
    ensures
        pair_views(r@) == kept_thumbnails(thumbnail_dir@, videos@, states@, generated@),
{
    let mut r: Vec<(VideoEntry, String)> = Vec::new();
    let mut i: usize = 0;
    while i < videos.len()
        invariant
            i <= videos.len() == states.len() == generated.len(),
            pair_views(r@) == kept_thumbnails(
                thumbnail_dir@,
                videos@.take(i as int),
                states@.take(i as int),
                generated@.take(i as int),
            ),
        decreases videos.len() - i,
    {
        assert(videos@.take(i + 1).drop_last() =~= videos@.take(i as int));
        assert(states@.take(i + 1).drop_last() =~= states@.take(i as int));
        assert(generated@.take(i + 1).drop_last() =~= generated@.take(i as int));
        let ghost before = r@;
        if !needs_generation(&videos[i], &states[i]) || generated[i] {
            let path = thumbnail_path_in(thumbnail_dir, videos[i].path.as_str());
            r.push((copy_entry(&videos[i]), path));
            assert(pair_views(r@) =~= pair_views(before).push((videos@[i as int]@, r@.last().1@)));
        }
        i = i + 1;
    }
    assert(videos@.take(i as int) =~= videos@);
    assert(states@.take(i as int) =~= states@);
    assert(generated@.take(i as int) =~= generated@);
    r
}

/// A thumbnail is made again exactly when it is missing, its age is
/// unknown, or the video was modified after it; a video modified no later
/// than its thumbnail keeps it.
pub proof fn stale_thumbnails_are_remade(video_modified: i128, thumbnail: ThumbnailState)
    ensures
        thumbnail == ThumbnailState::Missing ==> needs_generation_spec(video_modified, thumbnail),
        thumbnail == ThumbnailState::Unreadable ==> needs_generation_spec(video_modified, thumbnail),
        forall|t: i128|
            thumbnail == ThumbnailState::Modified(t) ==> (needs_generation_spec(
                video_modified,
                thumbnail,
            ) <==> video_modified > t),
{
}

/// Whether the video at `i` stays in the gallery: its thumbnail is up to
/// date or was just made.
pub open spec fn video_kept(vs: Seq<VideoEntry>, states: Seq<ThumbnailState>, made: Seq<bool>, i: int) -> bool {
    !needs_generation_spec(vs[i].modified, states[i]) || made[i]
}

/// The video at `i` with its own thumbnail file in `dir`.
pub open spec fn video_with_thumbnail(dir: Seq<char>, vs: Seq<VideoEntry>, i: int) -> (VideoModel, Seq<char>) {
    (vs[i]@, thumbnail_path_at(dir, vs[i].path@))
}

/// `x` is some video of `vs` that stays, with its own thumbnail file.
pub open spec fn is_kept_video(
    dir: Seq<char>,
    vs: Seq<VideoEntry>,
    states: Seq<ThumbnailState>,
    made: Seq<bool>,
    x: (VideoModel, Seq<char>),
) -> bool {
    exists|i: int|
        0 <= i < vs.len() && #[trigger] video_kept(vs, states, made, i) && video_with_thumbnail(
            dir,
            vs,
            i,
        ) == x
}

/// The gallery keeps exactly the videos whose thumbnail is up to date or
/// was just made, each with its own thumbnail file in the directory.
pub proof fn gallery_keeps_videos_with_thumbnails(
    dir: Seq<char>,
    vs: Seq<VideoEntry>,
    states: Seq<ThumbnailState>,
    made: Seq<bool>,
)
    requires
        vs.len() == states.len(),
        vs.len() == made.len(),
    ensures
        forall|i: int|
            0 <= i < vs.len() && #[trigger] video_kept(vs, states, made, i) ==> kept_thumbnails(
                dir,
                vs,
                states,
                made,
            ).contains(video_with_thumbnail(dir, vs, i)),
        forall|k: int|
            0 <= k < kept_thumbnails(dir, vs, states, made).len() ==> is_kept_video(
                dir,
                vs,
                states,
                made,
                #[trigger] kept_thumbnails(dir, vs, states, made)[k],
            ),
    decreases vs.len(),
{
    if vs.len() > 0 {
        let v0 = vs.drop_last();
        let s0 = states.drop_last();
        let m0 = made.drop_last();
        let rest = kept_thumbnails(dir, v0, s0, m0);
        gallery_keeps_videos_with_thumbnails(dir, v0, s0, m0);
        let last = vs.len() - 1;
        let m = kept_thumbnails(dir, vs, states, made);
        assert(m == if video_kept(vs, states, made, last) {
            rest.push(video_with_thumbnail(dir, vs, last))
        } else {
            rest
        });
        assert forall|i: int| 0 <= i < vs.len() && #[trigger] video_kept(vs, states, made, i) implies m.contains(
            video_with_thumbnail(dir, vs, i),
        ) by {
            if i < last {
                assert(video_kept(v0, s0, m0, i));
                assert(video_with_thumbnail(dir, v0, i) == video_with_thumbnail(dir, vs, i));
                assert(rest.contains(video_with_thumbnail(dir, v0, i)));
                let k = choose|k: int| 0 <= k < rest.len() && rest[k] == video_with_thumbnail(dir, v0, i);
                assert(m[k] == rest[k]);
            } else {
                assert(m[m.len() - 1] == video_with_thumbnail(dir, vs, i));
            }
        }
        assert forall|k: int| 0 <= k < m.len() implies is_kept_video(
            dir,
            vs,
            states,
            made,
            #[trigger] m[k],
        ) by {
            if k < rest.len() {
                assert(m[k] == rest[k]);
                assert(is_kept_video(dir, v0, s0, m0, rest[k]));
                let i = choose|i: int|
                    0 <= i < v0.len() && #[trigger] video_kept(v0, s0, m0, i) && video_with_thumbnail(
                        dir,
                        v0,
                        i,
                    ) == rest[k];
                assert(video_kept(vs, states, made, i));
                assert(video_with_thumbnail(dir, v0, i) == video_with_thumbnail(dir, vs, i));
            } else {
                assert(video_with_thumbnail(dir, vs, last) == m[k]);
                assert(video_kept(vs, states, made, last));
            }
        }
    } else {
        assert(kept_thumbnails(dir, vs, states, made).len() == 0);
    }
}

} // verus!
