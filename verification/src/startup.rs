//! What the application checks and settles when it starts: the commands it
//! needs, and the hardware decoder when the configuration leaves it to
//! detection.
use vstd::prelude::*;
use vstd::string::*;
use crate::gpu::{hwdec_name, GpuVendor};
use crate::text::str_eq;

verus! {

/// The commands the application cannot work without.
pub open spec fn required_commands_spec() -> Seq<Seq<char>> {
    seq!["mpvpaper"@, "ffmpeg"@, "ffprobe"@, "hyprctl"@]
}

pub fn required_commands() -> (r: Vec<&'static str>)
    ensures
        r@.map_values(|s: &str| s@) == required_commands_spec(),
{
    let r = vec!["mpvpaper", "ffmpeg", "ffprobe", "hyprctl"];
    assert(r@.map_values(|s: &str| s@) =~= required_commands_spec());
    r
}

/// The required commands that are not there (`present[i]` tells for the
/// `i`-th), in order.
pub open spec fn missing_of(names: Seq<Seq<char>>, present: Seq<bool>) -> Seq<Seq<char>>
    decreases names.len(),
{
    if names.len() == 0 || present.len() == 0 {
        Seq::empty()
    } else {
        let rest = missing_of(names.drop_last(), present.drop_last());
        if present.last() {
            rest
        } else {
            rest.push(names.last())
        }
    }
}

pub fn missing_commands(present: &Vec<bool>) -> (r: Vec<String>)
    requires
        present.len() == 4,
    ensures
        r@.map_values(|s: String| s@) == missing_of(required_commands_spec(), present@),
{
    let names = required_commands();
    let ghost spec_names = required_commands_spec();
    assert(names.len() == 4) by {
        assert(names@.map_values(|s: &str| s@).len() == names@.len());
    }
    let mut r: Vec<String> = Vec::new();
    let mut i: usize = 0;
    while i < names.len()
        invariant
            i <= names.len() == present.len() == 4,
            names@.map_values(|s: &str| s@) == spec_names,
            spec_names == required_commands_spec(),
            r@.map_values(|s: String| s@) == missing_of(spec_names.take(i as int), present@.take(i as int)),
        decreases names.len() - i,
    {
        assert(spec_names.take(i + 1).drop_last() =~= spec_names.take(i as int));
        assert(present@.take(i + 1).drop_last() =~= present@.take(i as int));
        assert(spec_names[i as int] == names@[i as int]@);
        let ghost before = r@;
        if !present[i] {
            r.push(String::from_str(names[i]));
            assert(r@.map_values(|s: String| s@) =~= before.map_values(|s: String| s@).push(
                names@[i as int]@,
            ));
        }
        i = i + 1;
    }
    assert(spec_names.take(4) =~= spec_names);
    assert(present@.take(4) =~= present@);
    r
}

proof fn lemma_missing_of(names: Seq<Seq<char>>, present: Seq<bool>)
    requires
        names.len() == present.len(),
    ensures
        forall|i: int|
            0 <= i < names.len() && !present[i] ==> #[trigger] missing_of(names, present).contains(
                names[i],
            ),
        forall|k: int|
            0 <= k < missing_of(names, present).len() ==> exists|i: int|
                0 <= i < names.len() && !present[i] && names[i] == #[trigger] missing_of(
                    names,
                    present,
                )[k],
    decreases names.len(),
{
    if names.len() > 0 {
        let n0 = names.drop_last();
        let p0 = present.drop_last();
        let rest = missing_of(n0, p0);
        lemma_missing_of(n0, p0);
        let last = names.len() - 1;
        let m = missing_of(names, present);
        assert forall|i: int| 0 <= i < names.len() && !present[i] implies #[trigger] m.contains(
            names[i],
        ) by {
            if i < last {
                assert(n0[i] == names[i] && p0[i] == present[i]);
                assert(rest.contains(n0[i]));
                let k = choose|k: int| 0 <= k < rest.len() && rest[k] == n0[i];
                if !present.last() {
                    assert(m[k] == rest[k]);
                }
            } else {
                assert(m[m.len() - 1] == names[i]);
            }
        }
        assert forall|k: int| 0 <= k < m.len() implies exists|i: int|
            0 <= i < names.len() && !present[i] && names[i] == #[trigger] m[k] by {
            if k < rest.len() {
                assert(m[k] == rest[k]);
                let i = choose|i: int| 0 <= i < n0.len() && !p0[i] && n0[i] == rest[k];
                assert(names[i] == n0[i] && present[i] == p0[i]);
            } else {
                assert(names[last] == m[k]);
            }
        }
    }
}

/// The missing commands are exactly the required commands reported absent:
/// each absent one is listed, each listed one is absent, and none is listed
/// when all are there.
pub proof fn missing_lists_the_absent_commands(present: Seq<bool>)
    requires
        present.len() == 4,
    ensures
        forall|i: int|
            0 <= i < 4 ==> (missing_of(required_commands_spec(), present).contains(
                #[trigger] required_commands_spec()[i],
            ) <==> !present[i]),
        (forall|i: int| 0 <= i < 4 ==> present[i]) ==> missing_of(
            required_commands_spec(),
            present,
        ).len() == 0,
{
    let names = required_commands_spec();
    let m = missing_of(names, present);
    lemma_missing_of(names, present);
    reveal_strlit("mpvpaper");
    reveal_strlit("ffmpeg");
    reveal_strlit("ffprobe");
    reveal_strlit("hyprctl");
    assert forall|i: int| 0 <= i < 4 implies (m.contains(#[trigger] names[i]) <==> !present[i]) by {
        if m.contains(names[i]) {
            let k = choose|k: int| 0 <= k < m.len() && m[k] == names[i];
            let j = choose|j: int| 0 <= j < names.len() && !present[j] && names[j] == m[k];
            assert(names[j] == names[i]);
            assert(names[0][1] != names[1][1] && names[0][1] != names[2][1] && names[0][1]
                != names[3][1]);
            assert(names[1].len() != names[2].len() && names[1][1] != names[3][1]);
            assert(names[2][1] != names[3][1]);
            assert(j == i);
        }
    }
    if forall|i: int| 0 <= i < 4 ==> present[i] {
        if m.len() > 0 {
            let j = choose|j: int| 0 <= j < names.len() && !present[j] && names[j] == m[0];
        }
    }
}

/// Items joined by a separator.
pub open spec fn joined(items: Seq<Seq<char>>, sep: Seq<char>) -> Seq<char>
    decreases items.len(),
{
    if items.len() == 0 {
        Seq::empty()
    } else if items.len() == 1 {
        items[0]
    } else {
        joined(items.drop_last(), sep) + sep + items.last()
    }
}

/// Joining two non-empty lists: the first joined, the separator, the
/// second joined.
pub proof fn joined_concat(a: Seq<Seq<char>>, b: Seq<Seq<char>>, sep: Seq<char>)
    requires
        a.len() > 0,
        b.len() > 0,
    ensures
        joined(a + b, sep) == joined(a, sep) + sep + joined(b, sep),
    decreases b.len(),
{
    if b.len() == 1 {
        assert((a + b).drop_last() =~= a);
        assert((a + b).last() == b[0]);
    } else {
        joined_concat(a, b.drop_last(), sep);
        assert((a + b).drop_last() =~= a + b.drop_last());
        assert((a + b).last() == b.last());
    }
}

/// The dialog text names each missing command after the heading, separated
/// by commas: one command alone follows the heading, and one more command
/// adds a comma and its name.
pub proof fn missing_message_lists_each_command(missing: Seq<Seq<char>>, next: Seq<char>)
    ensures
        missing_message_spec(seq![next]) == "Missing required dependencies:\n\n"@ + next,
        missing.len() > 0 ==> missing_message_spec(missing.push(next)) == missing_message_spec(
            missing,
        ) + ", "@ + next,
        missing_message_spec(Seq::empty()) == "Missing required dependencies:\n\n"@,
{
    assert("Missing required dependencies:\n\n"@ + Seq::<char>::empty() =~= "Missing required dependencies:\n\n"@);
    if missing.len() > 0 {
        assert(missing.push(next).drop_last() =~= missing);
        let h = "Missing required dependencies:\n\n"@;
        assert(h + (joined(missing, ", "@) + ", "@ + next) =~= h + joined(missing, ", "@) + ", "@
            + next);
    }
}

/// What the start-up dialog says when commands are missing.
pub open spec fn missing_message_spec(missing: Seq<Seq<char>>) -> Seq<char> {
    "Missing required dependencies:\n\n"@ + joined(missing, ", "@)
}

pub fn missing_dependencies_message(missing: &Vec<String>) -> (r: String)
    ensures
        r@ == missing_message_spec(missing@.map_values(|s: String| s@)),
{
    let ghost items = missing@.map_values(|s: String| s@);
    let mut body = String::new();
    let mut i: usize = 0;
    while i < missing.len()
        invariant
            i <= missing.len(),
            items == missing@.map_values(|s: String| s@),
            body@ == joined(items.take(i as int), ", "@),
        decreases missing.len() - i,
    {
        assert(items.take(i + 1).drop_last() =~= items.take(i as int));
        assert(items.take(i + 1).last() == missing@[i as int]@);
        if i == 0 {
            body.append(missing[i].as_str());
            assert(body@ =~= joined(items.take(1), ", "@));
        } else {
            body.append(", ");
            body.append(missing[i].as_str());
        }
        i = i + 1;
    }
    assert(items.take(i as int) =~= items);
    let mut r = String::from_str("Missing required dependencies:\n\n");
    r.append(body.as_str());
    r
}

/// The hardware decoder to use: a configured decoder stays, and "auto" is
/// settled by the detected GPU.
pub open spec fn resolved_hwdec_spec(configured: Seq<char>, vendor: GpuVendor) -> Seq<char> {
    if configured == "auto"@ {
        hwdec_name(vendor)
    } else {
        configured
    }
}

/// Whether the configured decoder is left to detection (so the GPU has to
/// be detected).
pub fn hwdec_needs_detection(configured: &str) -> (r: bool)
    ensures
        r == (configured@ == "auto"@),
{
    str_eq(configured, "auto")
}

pub fn resolve_hwdec(configured: &str, vendor: GpuVendor) -> (r: String)
    ensures
        r@ == resolved_hwdec_spec(configured@, vendor),
{
    if hwdec_needs_detection(configured) {
        String::from_str(vendor.hwdec())
    } else {
        String::from_str(configured)
    }
}

/// A decoder chosen in the configuration is kept whatever the GPU; "auto"
/// gives NVDEC on NVIDIA, VA-API on AMD and Intel, and stays "auto" when
/// the vendor is unknown.
pub proof fn configured_decoder_is_kept(configured: Seq<char>, vendor: GpuVendor)
    ensures
        configured != "auto"@ ==> resolved_hwdec_spec(configured, vendor) == configured,
        resolved_hwdec_spec("auto"@, GpuVendor::Nvidia) == "nvdec"@,
        resolved_hwdec_spec("auto"@, GpuVendor::Amd) == "vaapi"@,
        resolved_hwdec_spec("auto"@, GpuVendor::Intel) == "vaapi"@,
        resolved_hwdec_spec("auto"@, GpuVendor::Unknown) == "auto"@,
{
}

} // verus!

