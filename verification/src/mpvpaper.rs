//! Driving mpvpaper: the options it is started with, which running
//! instances to stop before a monitor gets a new wallpaper, and which saved
//! wallpapers to restore.
use vstd::prelude::*;
use vstd::string::*;
use crate::text::{
    concat, contains_seq, lemma_contains_in_concat, lemma_contains_self, starts_with_seq, chars_in, chars_of, equals_in, is_whitespace_char, lemma_lines_past_end, line_text, lines_from,
    lines_of, next_line, parse_u32_in, parse_u32_spec, word_end_at, words_from, words_of,
};

verus! {

/// The `-o` option string of mpvpaper. `panscan` is the panscan setting as
/// its number is written out.
pub open spec fn mpv_options_spec(
    gpu_api: Seq<char>,
    hwdec: Seq<char>,
    panscan: Seq<char>,
    loop_video: bool,
) -> Seq<char> {
    "no-border --vo=gpu-next"@ + (" --gpu-api="@ + gpu_api) + " --gpu-context=wayland"@ + (
    " --hwdec="@ + hwdec) + " --vd-lavc-dr=yes"@ + (" --panscan="@ + panscan) + (if loop_video {
        " --loop"@
    } else {
        ""@
    })
}

pub fn mpv_options(gpu_api: &str, hwdec: &str, panscan: &str, loop_video: bool) -> (r: String)
    ensures
        r@ == mpv_options_spec(gpu_api@, hwdec@, panscan@, loop_video),
{
    let mut r = String::from_str("no-border --vo=gpu-next");
    let part = concat(" --gpu-api=", gpu_api);
    r.append(part.as_str());
    r.append(" --gpu-context=wayland");
    let part = concat(" --hwdec=", hwdec);
    r.append(part.as_str());
    r.append(" --vd-lavc-dr=yes");
    let part = concat(" --panscan=", panscan);
    r.append(part.as_str());
    if loop_video {
        r.append(" --loop");
    } else {
        proof {
            reveal_strlit("");
            assert(r@ + ""@ =~= r@);
        }
    }
    r
}

/// The options pass the GPU API, the decoder and the panscan value given,
/// each after its own option name, and looping adds `--loop` at the end
/// and nothing else.
pub proof fn mpv_options_carry_the_settings(
    gpu_api: Seq<char>,
    hwdec: Seq<char>,
    panscan: Seq<char>,
    loop_video: bool,
)
    ensures
        contains_seq(mpv_options_spec(gpu_api, hwdec, panscan, loop_video), " --gpu-api="@ + gpu_api),
        contains_seq(mpv_options_spec(gpu_api, hwdec, panscan, loop_video), " --hwdec="@ + hwdec),
        contains_seq(mpv_options_spec(gpu_api, hwdec, panscan, loop_video), " --panscan="@ + panscan),
        starts_with_seq(mpv_options_spec(gpu_api, hwdec, panscan, loop_video), "no-border --vo=gpu-next"@),
        mpv_options_spec(gpu_api, hwdec, panscan, true) == mpv_options_spec(
            gpu_api,
            hwdec,
            panscan,
            false,
        ) + " --loop"@,
{
    broadcast use lemma_contains_in_concat;

    lemma_contains_self(" --gpu-api="@ + gpu_api);
    lemma_contains_self(" --hwdec="@ + hwdec);
    lemma_contains_self(" --panscan="@ + panscan);
    reveal_strlit("");
    let o = mpv_options_spec(gpu_api, hwdec, panscan, false);
    assert(o + ""@ =~= o);
    let h = "no-border --vo=gpu-next"@;
    let full = mpv_options_spec(gpu_api, hwdec, panscan, loop_video);
    assert(full.subrange(0, h.len() as int) =~= h);
}

// ---------------------------------------------------------------------
// Stopping running instances
// ---------------------------------------------------------------------

/// The process id on one line of `pgrep -a mpvpaper` output (a pid, then
/// the command line, words separated by whitespace), when one of the words
/// after the pid is exactly the monitor's name: the pid, read as a `u32`.
/// A monitor whose name merely contains it (eDP-1 for DP-1) does not count.
pub open spec fn line_pid(line: Seq<char>, monitor: Seq<char>) -> Option<u32> {
    let w = words_of(line);
    if w.len() > 0 && w.drop_first().contains(monitor) {
        parse_u32_spec(w[0])
    } else {
        None
    }
}

proof fn lemma_push_contains(s: Seq<Seq<char>>, w: Seq<char>, m: Seq<char>)
    ensures
        s.push(w).contains(m) <==> (s.contains(m) || w == m),
{
    if s.contains(m) {
        let i = choose|i: int| 0 <= i < s.len() && s[i] == m;
        assert(s.push(w)[i] == m);
    }
    if w == m {
        assert(s.push(w)[s.len() as int] == m);
    }
    if s.push(w).contains(m) {
        let i = choose|i: int| 0 <= i < s.len() + 1 && s.push(w)[i] == m;
        if i < s.len() {
            assert(s[i] == m);
        }
    }
}

fn line_pid_in(line: &Vec<char>, m: &Vec<char>) -> (r: Option<u32>)
    ensures
        r == line_pid(line@, m@),
{
    let mut j: usize = 0;
    let mut first: Option<(usize, usize)> = None;
    let mut found = false;
    let ghost mut done: Seq<Seq<char>> = Seq::empty();
    assert(words_of(line@) =~= done + words_from(line@, 0));
    while j < line.len()
        invariant
            j <= line.len(),
            words_of(line@) == done + words_from(line@, j as int),
            match first {
                Some((a, b)) => done.len() > 0 && a <= b <= line.len() && done[0]
                    == line@.subrange(a as int, b as int),
                None => done.len() == 0,
            },
            found == (done.len() > 0 && done.drop_first().contains(m@)),
        decreases line.len() - j,
    {
        if is_whitespace_char(line[j]) {
            j = j + 1;
        } else {
            let e = word_end_at(line, j);
            let ghost w = line@.subrange(j as int, e as int);
            proof {
                assert(done + words_from(line@, j as int) =~= done.push(w) + words_from(
                    line@,
                    e as int,
                ));
                if done.len() > 0 {
                    assert(done.push(w).drop_first() =~= done.drop_first().push(w));
                    lemma_push_contains(done.drop_first(), w, m@);
                    assert(done.push(w)[0] == done[0]);
                } else {
                    assert(done.push(w).drop_first() =~= Seq::<Seq<char>>::empty());
                }
            }
            match first {
                None => {
                    first = Some((j, e));
                },
                Some(_) => {
                    if equals_in(line, j, e, m) {
                        found = true;
                    }
                },
            }
            proof {
                done = done.push(w);
            }
            j = e;
        }
    }
    assert(done + words_from(line@, j as int) =~= done);
    match first {
        Some((a, b)) => if found {
            parse_u32_in(line, a, b)
        } else {
            None
        },
        None => None,
    }
}

/// The process ids that the lines give, in order.
pub open spec fn pids_of_lines(lines: Seq<Seq<char>>, monitor: Seq<char>) -> Seq<u32>
    decreases lines.len(),
{
    if lines.len() == 0 {
        Seq::empty()
    } else {
        let rest = pids_of_lines(lines.drop_first(), monitor);
        match line_pid(lines[0], monitor) {
            Some(p) => seq![p] + rest,
            None => rest,
        }
    }
}

proof fn lemma_pids_cons(a: Seq<char>, rest: Seq<Seq<char>>, monitor: Seq<char>)
    ensures
        pids_of_lines(seq![a] + rest, monitor) == match line_pid(a, monitor) {
            Some(p) => seq![p] + pids_of_lines(rest, monitor),
            None => pids_of_lines(rest, monitor),
        },
{
    assert((seq![a] + rest)[0] == a);
    assert((seq![a] + rest).drop_first() =~= rest);
}

/// The pids of two runs of lines are those of the first, then those of the
/// second.
pub proof fn pids_of_lines_concat(a: Seq<Seq<char>>, b: Seq<Seq<char>>, monitor: Seq<char>)
    ensures
        pids_of_lines(a + b, monitor) == pids_of_lines(a, monitor) + pids_of_lines(b, monitor),
    decreases a.len(),
{
    if a.len() == 0 {
        assert(a + b =~= b);
        assert(Seq::<u32>::empty() + pids_of_lines(b, monitor) =~= pids_of_lines(b, monitor));
    } else {
        assert((a + b).drop_first() =~= a.drop_first() + b);
        assert((a + b)[0] == a[0]);
        pids_of_lines_concat(a.drop_first(), b, monitor);
        let rest = pids_of_lines(a.drop_first(), monitor);
        let pb = pids_of_lines(b, monitor);
        match line_pid(a[0], monitor) {
            Some(p) => {
                assert(seq![p] + (rest + pb) =~= (seq![p] + rest) + pb);
            },
            None => {},
        }
    }
}

/// A line of `pgrep -a` output gives a process to stop exactly when the
/// monitor's name is one of the words after its first, and then the
/// process is the first word read as a number.
pub proof fn only_lines_naming_the_monitor_give_pids(line: Seq<char>, monitor: Seq<char>)
    ensures
        (words_of(line).len() == 0 || !words_of(line).drop_first().contains(monitor))
            ==> line_pid(line, monitor) is None,
        words_of(line).len() > 0 && words_of(line).drop_first().contains(monitor) ==> line_pid(
            line,
            monitor,
        ) == parse_u32_spec(words_of(line)[0]),
{
}

/// The mpvpaper processes to stop before `monitor` gets a new wallpaper:
/// the leading number of each line of `pgrep -a mpvpaper` output that has
/// the monitor's name as one of its words.
pub fn pids_to_kill(pgrep_output: &str, monitor: &str) -> (r: Vec<u32>)
    ensures
        r@ == pids_of_lines(lines_of(pgrep_output@), monitor@),
{
    let h = chars_of(pgrep_output);
    let m = chars_of(monitor);
    let mut r: Vec<u32> = Vec::new();
    let mut i: usize = 0;
    while i < h.len()
        invariant
            i <= h.len(),
            h@ == pgrep_output@,
            m@ == monitor@,
            pids_of_lines(lines_of(h@), m@) == r@ + pids_of_lines(lines_from(h@, i as int), m@),
        decreases h.len() - i,
    {
        let (e, stop) = next_line(&h, i);
        let ghost line = line_text(h@, i as int, e as int);
        let ghost rest = lines_from(h@, e + 1);
        proof {
            lemma_pids_cons(line, rest, m@);
        }
        let ghost before = r@;
        let line_chars = chars_in(&h, i, stop);
        match line_pid_in(&line_chars, &m) {
            Some(pid) => {
                r.push(pid);
                assert(before + (seq![pid] + pids_of_lines(rest, m@)) =~= r@ + pids_of_lines(
                    rest,
                    m@,
                ));
            },
            None => {},
        }
        if e >= h.len() {
            proof {
                lemma_lines_past_end(h@, e + 1);
                assert(r@ + pids_of_lines(lines_from(h@, e + 1), m@) =~= r@);
            }
            return r;
        }
        i = e + 1;
    }
    assert(r@ + pids_of_lines(lines_from(h@, i as int), m@) =~= r@);
    r
}

// ---------------------------------------------------------------------
// Restoring saved wallpapers
// ---------------------------------------------------------------------

/// The saved (monitor, video) pairs whose video still exists (`present[i]`
/// tells for `saved[i]`), in order.
pub open spec fn restorable(saved: Seq<(String, String)>, present: Seq<bool>) -> Seq<
    (String, String),
>
    decreases saved.len(),
{
    if saved.len() == 0 || present.len() == 0 {
        Seq::empty()
    } else {
        let rest = restorable(saved.drop_last(), present.drop_last());
        if present.last() {
            rest.push(saved.last())
        } else {
            rest
        }
    }
}

/// The saved wallpapers to apply again; missing videos are skipped.
pub fn wallpapers_to_restore(saved: &Vec<(String, String)>, present: &Vec<bool>) -> (r: Vec<
    (String, String),
>)
    requires
        saved.len() == present.len(),
    ensures
        r@ == restorable(saved@, present@),
{
    let mut r: Vec<(String, String)> = Vec::new();
    let mut i: usize = 0;
    while i < saved.len()
        invariant
            i <= saved.len() == present.len(),
            r@ == restorable(saved@.take(i as int), present@.take(i as int)),
        decreases saved.len() - i,
    {
        assert(saved@.take(i + 1).drop_last() =~= saved@.take(i as int));
        assert(present@.take(i + 1).drop_last() =~= present@.take(i as int));
        if present[i] {
            r.push((saved[i].0.clone(), saved[i].1.clone()));
        }
        i = i + 1;
    }
    assert(saved@.take(i as int) =~= saved@);
    assert(present@.take(i as int) =~= present@);
    r
}

/// The wallpapers restored are exactly the saved ones whose video is there:
/// each saved pair with its video present is restored, and each restored
/// pair is a saved pair with its video present.
pub proof fn restore_keeps_the_present_videos(saved: Seq<(String, String)>, present: Seq<bool>)
    requires
        saved.len() == present.len(),
    ensures
        forall|i: int|
            0 <= i < saved.len() && present[i] ==> #[trigger] restorable(saved, present).contains(
                saved[i],
            ),
        forall|k: int|
            0 <= k < restorable(saved, present).len() ==> exists|i: int|
                0 <= i < saved.len() && present[i] && saved[i] == #[trigger] restorable(
                    saved,
                    present,
                )[k],
        restorable(saved, present).len() <= saved.len(),
    decreases saved.len(),
{
    if saved.len() > 0 {
        let s0 = saved.drop_last();
        let p0 = present.drop_last();
        let rest = restorable(s0, p0);
        restore_keeps_the_present_videos(s0, p0);
        let last = saved.len() - 1;
        let m = restorable(saved, present);
        assert forall|i: int| 0 <= i < saved.len() && present[i] implies #[trigger] m.contains(
            saved[i],
        ) by {
            if i < last {
                assert(s0[i] == saved[i] && p0[i] == present[i]);
                assert(rest.contains(s0[i]));
                let k = choose|k: int| 0 <= k < rest.len() && rest[k] == s0[i];
                assert(m[k] == rest[k]);
            } else {
                assert(m[m.len() - 1] == saved[i]);
            }
        }
        assert forall|k: int| 0 <= k < m.len() implies exists|i: int|
            0 <= i < saved.len() && present[i] && saved[i] == #[trigger] m[k] by {
            if k < rest.len() {
                assert(m[k] == rest[k]);
                let i = choose|i: int| 0 <= i < s0.len() && p0[i] && s0[i] == rest[k];
                assert(saved[i] == s0[i] && present[i] == p0[i]);
            } else {
                assert(saved[last] == m[k]);
            }
        }
    }
}

} // verus!
