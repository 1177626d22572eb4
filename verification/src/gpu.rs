//! GPU vendor detection, which decides the hardware decoder that mpvpaper
//! is told to use.
use vstd::prelude::*;
use crate::text::{
    chars_of, closed_lines, contains_in, contains_seq, contains_word, contains_word_in,
    equals_in, lemma_closed_lines_shape, lemma_contains_strip_cr, lemma_line_end,
    lemma_ascii_case_maps, lemma_lines_concat, lemma_lines_past_end, lemma_newline_pieces_concat,
    lemma_newline_pieces_from, line_end, line_text, lines_from, lines_of, lowercase_of,
    lowercase_pieces, newline_pieces, next_line, starts_with_in, starts_with_seq, strip_cr,
    to_lowercase, trim_bounds, trim_seq, ascii_lowercase, ascii_uppercase,
};
use vstd::utf8::is_ascii_chars;
use crate::util::view_opt;

verus! {

#[derive(Debug, Clone, Copy, PartialEq, Eq, Structural)]
pub enum GpuVendor {
    Nvidia,
    Amd,
    Intel,
    Unknown,
}

/// The mpv `--hwdec` value for each vendor.
pub open spec fn hwdec_name(v: GpuVendor) -> Seq<char> {
    match v {
        GpuVendor::Nvidia => "nvdec"@,
        GpuVendor::Amd => "vaapi"@,
        GpuVendor::Intel => "vaapi"@,
        GpuVendor::Unknown => "auto"@,
    }
}

impl GpuVendor {
    pub fn hwdec(&self) -> (r: &'static str)
        ensures
            r@ == hwdec_name(*self),
    {
        match self {
            GpuVendor::Nvidia => "nvdec",
            GpuVendor::Amd => "vaapi",
            GpuVendor::Intel => "vaapi",
            GpuVendor::Unknown => "auto",
        }
    }
}

// ---------------------------------------------------------------------
// lspci output
// ---------------------------------------------------------------------

pub open spec fn word_vga() -> Seq<char> {
    seq!['v', 'g', 'a']
}

pub open spec fn word_3d_controller() -> Seq<char> {
    seq!['3', 'd', ' ', 'c', 'o', 'n', 't', 'r', 'o', 'l', 'l', 'e', 'r']
}

pub open spec fn word_nvidia() -> Seq<char> {
    seq!['n', 'v', 'i', 'd', 'i', 'a']
}

pub open spec fn word_intel() -> Seq<char> {
    seq!['i', 'n', 't', 'e', 'l']
}

pub open spec fn word_amd() -> Seq<char> {
    seq!['a', 'm', 'd']
}

pub open spec fn word_ati() -> Seq<char> {
    seq!['a', 't', 'i']
}

/// The vendor that one (lowercase) lspci line names: only display
/// controllers count ("vga" or "3d controller" somewhere in the line), a
/// vendor counts only when its name stands as a whole word (so the "ati" of
/// "compatible" names no one), and NVIDIA is tested before Intel before
/// AMD/ATI.
pub open spec fn line_vendor(line: Seq<char>) -> Option<GpuVendor> {
    if contains_seq(line, word_vga()) || contains_seq(line, word_3d_controller()) {
        if contains_word(line, word_nvidia()) {
            Some(GpuVendor::Nvidia)
        } else if contains_word(line, word_intel()) {
            Some(GpuVendor::Intel)
        } else if contains_word(line, word_amd()) || contains_word(line, word_ati()) {
            Some(GpuVendor::Amd)
        } else {
            None
        }
    } else {
        None
    }
}

/// The vendor of the first line that names one.
pub open spec fn first_line_vendor(lines: Seq<Seq<char>>) -> Option<GpuVendor>
    decreases lines.len(),
{
    if lines.len() == 0 {
        None
    } else {
        match line_vendor(lines[0]) {
            Some(v) => Some(v),
            None => first_line_vendor(lines.drop_first()),
        }
    }
}

proof fn lemma_first_line_vendor_append(a: Seq<Seq<char>>, b: Seq<Seq<char>>)
    ensures
        first_line_vendor(a + b) == match first_line_vendor(a) {
            Some(v) => Some(v),
            None => first_line_vendor(b),
        },
    decreases a.len(),
{
    if a.len() == 0 {
        assert(a + b =~= b);
    } else {
        assert((a + b)[0] == a[0]);
        assert((a + b).drop_first() =~= a.drop_first() + b);
        lemma_first_line_vendor_append(a.drop_first(), b);
    }
}

/// The line names a display controller ("vga" or "3d controller").
pub open spec fn names_display_controller(line: Seq<char>) -> bool {
    contains_seq(line, word_vga()) || contains_seq(line, word_3d_controller())
}

proof fn lemma_no_display_lines(ls: Seq<Seq<char>>)
    requires
        forall|j: int| 0 <= j < ls.len() ==> !names_display_controller(#[trigger] ls[j]),
    ensures
        first_line_vendor(ls) is None,
    decreases ls.len(),
{
    if ls.len() > 0 {
        assert(!names_display_controller(ls[0]));
        assert forall|j: int| 0 <= j < ls.drop_first().len() implies !names_display_controller(
            #[trigger] ls.drop_first()[j],
        ) by {
            assert(ls.drop_first()[j] == ls[j + 1]);
        }
        lemma_no_display_lines(ls.drop_first());
    }
}

proof fn lemma_needles_without_cr()
    ensures
        forall|i: int| 0 <= i < word_vga().len() ==> word_vga()[i] != '\r',
        forall|i: int| 0 <= i < word_3d_controller().len() ==> word_3d_controller()[i] != '\r',
        forall|i: int| 0 <= i < word_nvidia().len() ==> word_nvidia()[i] != '\r',
        forall|i: int| 0 <= i < word_intel().len() ==> word_intel()[i] != '\r',
        forall|i: int| 0 <= i < word_amd().len() ==> word_amd()[i] != '\r',
        forall|i: int| 0 <= i < word_ati().len() ==> word_ati()[i] != '\r',
{
}

/// A trailing `'\r'` changes nothing of what a line names.
proof fn lemma_line_vendor_strip_cr(l: Seq<char>)
    ensures
        line_vendor(strip_cr(l)) == line_vendor(l),
        names_display_controller(strip_cr(l)) == names_display_controller(l),
{
    if l.len() > 0 && l.last() == '\r' {
        lemma_needles_without_cr();
        lemma_contains_strip_cr(l, word_vga());
        lemma_contains_strip_cr(l, word_3d_controller());
        lemma_contains_strip_cr(l, word_nvidia());
        lemma_contains_strip_cr(l, word_intel());
        lemma_contains_strip_cr(l, word_amd());
        lemma_contains_strip_cr(l, word_ati());
    }
}

proof fn lemma_empty_line_names_nothing()
    ensures
        !names_display_controller(Seq::<char>::empty()),
        line_vendor(Seq::<char>::empty()) is None,
{
    assert(!contains_seq(Seq::<char>::empty(), word_vga()));
    assert(!contains_seq(Seq::<char>::empty(), word_3d_controller()));
}

/// The lines that `x` closes before a newline name what the lines of `x`
/// name, and name display controllers only where those do.
proof fn lemma_closed_lines_vendor(x: Seq<char>, i: int)
    requires
        0 <= i <= x.len(),
    ensures
        first_line_vendor(closed_lines(x, i)) == first_line_vendor(lines_from(x, i)),
        (forall|j: int|
            0 <= j < lines_from(x, i).len() ==> !names_display_controller(
                #[trigger] lines_from(x, i)[j],
            )) ==> (forall|j: int|
            0 <= j < closed_lines(x, i).len() ==> !names_display_controller(
                #[trigger] closed_lines(x, i)[j],
            )),
    decreases x.len() + 1 - i,
{
    lemma_closed_lines_shape(x, i);
    lemma_empty_line_names_nothing();
    let c = closed_lines(x, i);
    let l = lines_from(x, i);
    if i == x.len() {
        assert(c.drop_first() =~= Seq::<Seq<char>>::empty());
    } else {
        lemma_line_end(x, i);
        let e = line_end(x, i);
        if e < x.len() {
            lemma_closed_lines_vendor(x, e + 1);
            assert(c.drop_first() =~= closed_lines(x, e + 1));
            assert(l.drop_first() =~= lines_from(x, e + 1));
            if forall|j: int| 0 <= j < l.len() ==> !names_display_controller(#[trigger] l[j]) {
                assert forall|j: int| 0 <= j < lines_from(x, e + 1).len() implies !names_display_controller(
                    #[trigger] lines_from(x, e + 1)[j],
                ) by {
                    assert(lines_from(x, e + 1)[j] == l[j + 1]);
                }
                assert forall|j: int| 0 <= j < c.len() implies !names_display_controller(
                    #[trigger] c[j],
                ) by {
                    if j == 0 {
                        assert(c[0] == l[0]);
                    } else {
                        assert(c[j] == closed_lines(x, e + 1)[j - 1]);
                    }
                }
            }
        } else {
            lemma_line_vendor_strip_cr(x.subrange(i, x.len() as int));
            assert(c.drop_first() =~= Seq::<Seq<char>>::empty());
            assert(l.drop_first() =~= Seq::<Seq<char>>::empty());
            if forall|j: int| 0 <= j < l.len() ==> !names_display_controller(#[trigger] l[j]) {
                assert(!names_display_controller(l[0]));
                assert forall|j: int| 0 <= j < c.len() implies !names_display_controller(
                    #[trigger] c[j],
                ) by {
                    assert(j == 0);
                }
            }
        }
    }
}

/// Lines that name no display controller change nothing of what lspci output
/// tells, wherever they stand, and by themselves name no vendor.
pub proof fn other_lines_do_not_matter(extra: Seq<char>, text: Seq<char>)
    requires
        forall|j: int|
            0 <= j < lines_of(extra).len() ==> !names_display_controller(
                #[trigger] lines_of(extra)[j],
            ),
    ensures
        lspci_vendor(extra) is None,
        lspci_vendor(extra + seq!['\n'] + text) == lspci_vendor(text),
        lspci_vendor(text + seq!['\n'] + extra) == lspci_vendor(text),
{
    lemma_no_display_lines(lines_of(extra));
    // extra, then text
    lemma_lines_concat(extra, text, 0);
    lemma_closed_lines_vendor(extra, 0);
    lemma_no_display_lines(closed_lines(extra, 0));
    lemma_first_line_vendor_append(closed_lines(extra, 0), lines_of(text));
    // text, then extra
    lemma_lines_concat(text, extra, 0);
    lemma_closed_lines_vendor(text, 0);
    lemma_first_line_vendor_append(closed_lines(text, 0), lines_of(extra));
}

/// The vendor that already lowercased lspci output names.
pub open spec fn lspci_vendor(lower: Seq<char>) -> Option<GpuVendor> {
    first_line_vendor(lines_of(lower))
}

proof fn lemma_first_line_vendor_cons(a: Seq<char>, rest: Seq<Seq<char>>)
    ensures
        first_line_vendor(seq![a] + rest) == match line_vendor(a) {
            Some(v) => Some(v),
            None => first_line_vendor(rest),
        },
{
    assert((seq![a] + rest)[0] == a);
    assert((seq![a] + rest).drop_first() =~= rest);
}

fn line_vendor_in(
    h: &Vec<char>,
    lo: usize,
    hi: usize,
    vga: &Vec<char>,
    three_d: &Vec<char>,
    nvidia: &Vec<char>,
    intel: &Vec<char>,
    amd: &Vec<char>,
    ati: &Vec<char>,
) -> (r: Option<GpuVendor>)
    requires
        lo <= hi <= h.len(),
        vga@ == word_vga(),
        three_d@ == word_3d_controller(),
        nvidia@ == word_nvidia(),
        intel@ == word_intel(),
        amd@ == word_amd(),
        ati@ == word_ati(),
    ensures
        r == line_vendor(h@.subrange(lo as int, hi as int)),
{
    if contains_in(h, lo, hi, vga) || contains_in(h, lo, hi, three_d) {
        if contains_word_in(h, lo, hi, nvidia) {
            Some(GpuVendor::Nvidia)
        } else if contains_word_in(h, lo, hi, intel) {
            Some(GpuVendor::Intel)
        } else if contains_word_in(h, lo, hi, amd) || contains_word_in(h, lo, hi, ati) {
            Some(GpuVendor::Amd)
        } else {
            None
        }
    } else {
        None
    }
}

/// The vendor that lspci output names, the output being lowercase already.
pub fn vendor_from_lowercase_lspci(text: &str) -> (r: Option<GpuVendor>)
    ensures
        r == lspci_vendor(text@),
{
    let h = chars_of(text);
    let vga = vec!['v', 'g', 'a'];
    let three_d = vec!['3', 'd', ' ', 'c', 'o', 'n', 't', 'r', 'o', 'l', 'l', 'e', 'r'];
    let nvidia = vec!['n', 'v', 'i', 'd', 'i', 'a'];
    let intel = vec!['i', 'n', 't', 'e', 'l'];
    let amd = vec!['a', 'm', 'd'];
    let ati = vec!['a', 't', 'i'];
    let mut i: usize = 0;
    while i < h.len()
        invariant
            i <= h.len(),
            h@ == text@,
            vga@ == word_vga(),
            three_d@ == word_3d_controller(),
            nvidia@ == word_nvidia(),
            intel@ == word_intel(),
            amd@ == word_amd(),
            ati@ == word_ati(),
            lspci_vendor(h@) == first_line_vendor(lines_from(h@, i as int)),
        decreases h.len() - i,
    {
        let (e, stop) = next_line(&h, i);
        let v = line_vendor_in(&h, i, stop, &vga, &three_d, &nvidia, &intel, &amd, &ati);
        proof {
            lemma_first_line_vendor_cons(line_text(h@, i as int, e as int), lines_from(h@, e + 1));
        }
        if v.is_some() {
            return v;
        }
        if e >= h.len() {
            proof {
                lemma_lines_past_end(h@, e + 1);
            }
            return None;
        }
        i = e + 1;
    }
    None
}

/// The lines of `s` from `i` on and the pieces of `s[i..]` between newlines
/// name the same vendor: they differ only by a trailing `'\r'` and by an
/// empty last piece.
proof fn lemma_lines_vendor_by_pieces(s: Seq<char>, i: int)
    requires
        0 <= i <= s.len(),
    ensures
        first_line_vendor(lines_from(s, i)) == first_line_vendor(
            newline_pieces(s.subrange(i, s.len() as int)),
        ),
    decreases s.len() - i,
{
    let n = s.len() as int;
    lemma_newline_pieces_from(s, i);
    lemma_empty_line_names_nothing();
    if i == n {
        lemma_first_line_vendor_cons(Seq::<char>::empty(), Seq::<Seq<char>>::empty());
        assert(seq![Seq::<char>::empty()] =~= seq![Seq::<char>::empty()] + Seq::<
            Seq<char>,
        >::empty());
    } else {
        lemma_line_end(s, i);
        let e = line_end(s, i);
        lemma_first_line_vendor_cons(line_text(s, i, e), lines_from(s, e + 1));
        if e < n {
            lemma_lines_vendor_by_pieces(s, e + 1);
            let l = s.subrange(i, e);
            lemma_line_vendor_strip_cr(l);
            if e > i && s[e - 1] == '\r' {
                assert(l.drop_last() =~= s.subrange(i, e - 1));
            }
            assert(line_text(s, i, e) == strip_cr(l));
            lemma_first_line_vendor_cons(l, newline_pieces(s.subrange(e + 1, n)));
        } else {
            lemma_lines_past_end(s, e + 1);
            lemma_first_line_vendor_cons(s.subrange(i, n), Seq::<Seq<char>>::empty());
            assert(seq![s.subrange(i, n)] =~= seq![s.subrange(i, n)] + Seq::<
                Seq<char>,
            >::empty());
        }
    }
}

/// The vendor that raw lspci output names when each of its lines is
/// lowercased on its own.
pub open spec fn lspci_vendor_by_line(text: Seq<char>) -> Option<GpuVendor> {
    first_line_vendor(lowercase_pieces(text))
}

/// The GPU vendor that `lspci` output names: the output is lowercased, and
/// the first display-controller line that names a vendor decides. Since
/// lowercasing works line by line, this is also the vendor that the lines
/// name when each is lowercased on its own; for ASCII output, lowercasing is
/// ASCII lowercasing.
pub fn parse_lspci_output(text: &str) -> (r: Option<GpuVendor>)
    ensures
        r == lspci_vendor(lowercase_of(text@)),
        r == lspci_vendor_by_line(text@),
        is_ascii_chars(text@) ==> r == lspci_vendor(ascii_lowercase(text@)),
{
    let lower = to_lowercase(text);
    proof {
        lemma_lines_vendor_by_pieces(lower@, 0);
        assert(lower@.subrange(0, lower@.len() as int) =~= lower@);
    }
    vendor_from_lowercase_lspci(lower.as_str())
}

/// Lines that, lowercased, name no display controller change nothing of what
/// raw lspci output tells, whether they come before the rest or after it,
/// and by themselves name no vendor.
pub proof fn other_raw_lines_do_not_matter(extra: Seq<char>, text: Seq<char>)
    requires
        forall|j: int|
            0 <= j < lowercase_pieces(extra).len() ==> !names_display_controller(
                #[trigger] lowercase_pieces(extra)[j],
            ),
    ensures
        lspci_vendor_by_line(extra) is None,
        lspci_vendor_by_line(extra + seq!['\n'] + text) == lspci_vendor_by_line(text),
        lspci_vendor_by_line(text + seq!['\n'] + extra) == lspci_vendor_by_line(text),
{
    let le = lowercase_pieces(extra);
    let lt = lowercase_pieces(text);
    lemma_newline_pieces_concat(extra, text);
    lemma_newline_pieces_concat(text, extra);
    assert(lowercase_pieces(extra + seq!['\n'] + text) =~= le + lt);
    assert(lowercase_pieces(text + seq!['\n'] + extra) =~= lt + le);
    lemma_no_display_lines(le);
    lemma_first_line_vendor_append(le, lt);
    lemma_first_line_vendor_append(lt, le);
}

/// Matching ignores the case of ASCII letters: ASCII lspci output, put in
/// ASCII upper case or lower case, names the vendor that it names as it is.
pub proof fn matching_ignores_ascii_case(text: Seq<char>)
    requires
        is_ascii_chars(text),
    ensures
        is_ascii_chars(ascii_uppercase(text)),
        is_ascii_chars(ascii_lowercase(text)),
        lspci_vendor(ascii_lowercase(ascii_uppercase(text))) == lspci_vendor(
            ascii_lowercase(text),
        ),
        lspci_vendor(ascii_lowercase(ascii_lowercase(text))) == lspci_vendor(
            ascii_lowercase(text),
        ),
{
    lemma_ascii_case_maps(text);
}

// ---------------------------------------------------------------------
// sysfs PCI devices
// ---------------------------------------------------------------------

/// What the files `class` and `vendor` of one PCI device directory hold; the
/// vendor is `None` when the file could not be read.
pub struct PciDevice {
    pub class: String,
    pub vendor: Option<String>,
}

/// VGA compatible controller (0x0300xx) or 3D controller (0x0302xx).
pub open spec fn is_display_class(class: Seq<char>) -> bool {
    starts_with_seq(class, seq!['0', 'x', '0', '3', '0', '0'])
        || starts_with_seq(class, seq!['0', 'x', '0', '3', '0', '2'])
}

/// The vendor that a PCI vendor id stands for.
pub open spec fn vendor_of_id(id: Seq<char>) -> Option<GpuVendor> {
    if id == seq!['0', 'x', '1', '0', 'd', 'e'] {
        Some(GpuVendor::Nvidia)
    } else if id == seq!['0', 'x', '1', '0', '0', '2'] {
        Some(GpuVendor::Amd)
    } else if id == seq!['0', 'x', '8', '0', '8', '6'] {
        Some(GpuVendor::Intel)
    } else {
        None
    }
}

/// The vendor of one device: a display controller whose vendor id is known.
pub open spec fn device_vendor(d: PciDevice) -> Option<GpuVendor> {
    if is_display_class(trim_seq(d.class@)) {
        match d.vendor {
            Some(v) => vendor_of_id(trim_seq(v@)),
            None => None,
        }
    } else {
        None
    }
}

/// The vendor of the first device, in order, that gives one.
pub open spec fn first_device_vendor(ds: Seq<PciDevice>) -> Option<GpuVendor>
    decreases ds.len(),
{
    if ds.len() == 0 {
        None
    } else {
        match device_vendor(ds[0]) {
            Some(v) => Some(v),
            None => first_device_vendor(ds.drop_first()),
        }
    }
}

fn device_vendor_of(d: &PciDevice) -> (r: Option<GpuVendor>)
    ensures
        r == device_vendor(*d),
{
    let class = chars_of(d.class.as_str());
    let (a, b) = trim_bounds(&class, 0, class.len());
    assert(class@.subrange(0, class@.len() as int) =~= class@);
    let vga = vec!['0', 'x', '0', '3', '0', '0'];
    let three_d = vec!['0', 'x', '0', '3', '0', '2'];
    if !(starts_with_in(&class, a, b, &vga) || starts_with_in(&class, a, b, &three_d)) {
        return None;
    }
    match &d.vendor {
        None => None,
        Some(v) => {
            let id = chars_of(v.as_str());
            let (a, b) = trim_bounds(&id, 0, id.len());
            assert(id@.subrange(0, id@.len() as int) =~= id@);
            if equals_in(&id, a, b, &vec!['0', 'x', '1', '0', 'd', 'e']) {
                Some(GpuVendor::Nvidia)
            } else if equals_in(&id, a, b, &vec!['0', 'x', '1', '0', '0', '2']) {
                Some(GpuVendor::Amd)
            } else if equals_in(&id, a, b, &vec!['0', 'x', '8', '0', '8', '6']) {
                Some(GpuVendor::Intel)
            } else {
                None
            }
        },
    }
}

/// The vendor that the sysfs PCI devices show, in the order given.
pub fn vendor_from_pci_devices(devices: &Vec<PciDevice>) -> (r: Option<GpuVendor>)
    ensures
        r == first_device_vendor(devices@),
{
    let mut j: usize = 0;
    assert(devices@.skip(0) =~= devices@);
    while j < devices.len()
        invariant
            j <= devices.len(),
            first_device_vendor(devices@) == first_device_vendor(devices@.skip(j as int)),
        decreases devices.len() - j,
    {
        let v = device_vendor_of(&devices[j]);
        assert(devices@.skip(j as int)[0] == devices@[j as int]);
        assert(devices@.skip(j as int).drop_first() =~= devices@.skip(j + 1));
        if v.is_some() {
            return v;
        }
        j = j + 1;
    }
    None
}

// ---------------------------------------------------------------------
// Detection
// ---------------------------------------------------------------------

/// The vendor detected from what sysfs shows and from the output of lspci
/// (`None` where lspci could not be run): sysfs first, then lspci, else
/// `Unknown`.
pub open spec fn detected_vendor(devices: Seq<PciDevice>, lspci: Option<Seq<char>>) -> GpuVendor {
    match first_device_vendor(devices) {
        Some(v) => v,
        None => match lspci {
            Some(t) => match lspci_vendor(lowercase_of(t)) {
                Some(v) => v,
                None => GpuVendor::Unknown,
            },
            None => GpuVendor::Unknown,
        },
    }
}

proof fn lemma_first_device_vendor(ds: Seq<PciDevice>, i: int)
    requires
        0 <= i <= ds.len(),
        forall|j: int| 0 <= j < i ==> device_vendor(#[trigger] ds[j]) is None,
    ensures
        i == ds.len() ==> first_device_vendor(ds) is None,
        i < ds.len() && device_vendor(ds[i]) is Some ==> first_device_vendor(ds) == device_vendor(
            ds[i],
        ),
    decreases i,
{
    if i > 0 {
        assert forall|j: int| 0 <= j < i - 1 implies device_vendor(
            #[trigger] ds.drop_first()[j],
        ) is None by {
            assert(ds.drop_first()[j] == ds[j + 1]);
        }
        assert(device_vendor(ds[0]) is None);
        if i < ds.len() {
            assert(ds.drop_first()[i - 1] == ds[i]);
        }
        lemma_first_device_vendor(ds.drop_first(), i - 1);
    }
}

/// sysfs comes first: the first device that gives a vendor decides,
/// whatever lspci says.
pub proof fn sysfs_vendor_decides(devices: Seq<PciDevice>, i: int, lspci: Option<Seq<char>>)
    requires
        0 <= i < devices.len(),
        device_vendor(devices[i]) is Some,
        forall|j: int| 0 <= j < i ==> device_vendor(#[trigger] devices[j]) is None,
    ensures
        detected_vendor(devices, lspci) == device_vendor(devices[i])->0,
{
    lemma_first_device_vendor(devices, i);
}

/// When no device listed by sysfs gives a vendor, however many it lists,
/// lspci decides: its vendor when it names one, else `Unknown`, and
/// `Unknown` when lspci could not be run.
pub proof fn lspci_decides_when_sysfs_names_none(devices: Seq<PciDevice>, lspci: Option<Seq<char>>)
    requires
        forall|j: int| 0 <= j < devices.len() ==> device_vendor(#[trigger] devices[j]) is None,
    ensures
        detected_vendor(devices, lspci) == detected_vendor(Seq::<PciDevice>::empty(), lspci),
        lspci is None ==> detected_vendor(devices, lspci) == GpuVendor::Unknown,
        forall|t: Seq<char>, v: GpuVendor|
            lspci == Some(t) && lspci_vendor(lowercase_of(t)) == Some(v) ==> detected_vendor(
                devices,
                lspci,
            ) == v,
        forall|t: Seq<char>|
            lspci == Some(t) && lspci_vendor(lowercase_of(t)) is None ==> detected_vendor(
                devices,
                lspci,
            ) == GpuVendor::Unknown,
{
    lemma_first_device_vendor(devices, devices.len() as int);
}

/// Whether sysfs leaves the vendor open, so that lspci has to be asked.
pub fn needs_lspci(devices: &Vec<PciDevice>) -> (b: bool)
    ensures
        b == (first_device_vendor(devices@) is None),
{
    vendor_from_pci_devices(devices).is_none()
}

/// Detects the GPU vendor from the sysfs PCI devices and, failing that, from
/// the output of `lspci`.
pub fn detect_gpu(devices: &Vec<PciDevice>, lspci_output: &Option<String>) -> (r: GpuVendor)
    ensures
        r == detected_vendor(devices@, view_opt(*lspci_output)),
{
    match vendor_from_pci_devices(devices) {
        Some(v) => v,
        None => match lspci_output {
            Some(t) => match parse_lspci_output(t.as_str()) {
                Some(v) => v,
                None => GpuVendor::Unknown,
            },
            None => GpuVendor::Unknown,
        },
    }
}

} // verus!
