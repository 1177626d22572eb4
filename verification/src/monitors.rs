//! The monitors that `hyprctl monitors -j` reports, and how the gallery
//! names them and picks the one a wallpaper goes to.
use vstd::prelude::*;
use vstd::string::*;
use crate::json::{json_as_str, json_as_u64, json_decoded, json_get, parse_json, Json};
use crate::text::{decimal_digits, decimal_u32, string_of_chars};
use crate::util::view_opt;

verus! {

#[derive(Debug, Clone)]
pub struct MonitorInfo {
    pub name: String,
    pub description: String,
    pub width: u32,
    pub height: u32,
}

pub ghost struct MonitorModel {
    pub name: Seq<char>,
    pub description: Seq<char>,
    pub width: u32,
    pub height: u32,
}

impl View for MonitorInfo {
    type V = MonitorModel;

    open spec fn view(&self) -> MonitorModel {
        MonitorModel {
            name: self.name@,
            description: self.description@,
            width: self.width,
            height: self.height,
        }
    }
}

pub open spec fn views_of(ms: Seq<MonitorInfo>) -> Seq<MonitorModel> {
    ms.map_values(|m: MonitorInfo| m@)
}

/// The monitor that one element of hyprctl's array describes: it needs a
/// string `name` and integer `width` and `height` (cut to 32 bits); a
/// missing or non-string `description` reads as empty.
pub open spec fn monitor_of(m: Json) -> Option<MonitorModel> {
    match (
        json_as_str(json_get(m, "name"@)),
        json_as_u64(json_get(m, "width"@)),
        json_as_u64(json_get(m, "height"@)),
    ) {
        (Some(name), Some(w), Some(h)) => Some(
            MonitorModel {
                name,
                description: match json_as_str(json_get(m, "description"@)) {
                    Some(d) => d,
                    None => Seq::empty(),
                },
                width: w as u32,
                height: h as u32,
            },
        ),
        _ => None,
    }
}

/// The monitors among the elements, in order.
pub open spec fn monitors_of_items(items: Seq<Json>) -> Seq<MonitorModel>
    decreases items.len(),
{
    if items.len() == 0 {
        Seq::empty()
    } else {
        match monitor_of(items.last()) {
            Some(m) => monitors_of_items(items.drop_last()).push(m),
            None => monitors_of_items(items.drop_last()),
        }
    }
}

/// The monitors of two runs of array elements are those of the first, then
/// those of the second: each element stands for itself, in order.
pub proof fn monitors_of_items_concat(a: Seq<Json>, b: Seq<Json>)
    ensures
        monitors_of_items(a + b) == monitors_of_items(a) + monitors_of_items(b),
    decreases b.len(),
{
    if b.len() == 0 {
        assert(a + b =~= a);
        assert(monitors_of_items(a) + Seq::<MonitorModel>::empty() =~= monitors_of_items(a));
    } else {
        assert((a + b).drop_last() =~= a + b.drop_last());
        assert((a + b).last() == b.last());
        monitors_of_items_concat(a, b.drop_last());
        let ma = monitors_of_items(a);
        let mb = monitors_of_items(b.drop_last());
        match monitor_of(b.last()) {
            Some(m) => {
                assert((ma + mb).push(m) =~= ma + mb.push(m));
            },
            None => {},
        }
    }
}

/// The monitors that a decoded document lists: none unless it is an array.
pub open spec fn monitors_in(doc: Option<Json>) -> Seq<MonitorModel> {
    match doc {
        Some(Json::Array(items)) => monitors_of_items(items@),
        _ => Seq::empty(),
    }
}

fn monitor_from(m: &Json) -> (r: Option<MonitorInfo>)
    ensures
        match r {
            Some(x) => monitor_of(*m) == Some(x@),
            None => monitor_of(*m) is None,
        },
{
    let name = match m.get("name") {
        Some(v) => match v.as_str() {
            Some(s) => s,
            None => return None,
        },
        None => return None,
    };
    let description = match m.get("description") {
        Some(v) => match v.as_str() {
            Some(s) => String::from_str(s),
            None => String::new(),
        },
        None => String::new(),
    };
    let width = match m.get("width") {
        Some(v) => match v.as_u64() {
            Some(n) => n,
            None => return None,
        },
        None => return None,
    };
    let height = match m.get("height") {
        Some(v) => match v.as_u64() {
            Some(n) => n,
            None => return None,
        },
        None => return None,
    };
    Some(
        MonitorInfo {
            name: String::from_str(name),
            description,
            width: width as u32,
            height: height as u32,
        },
    )
}

/// The monitors listed in a decoded document.
pub fn monitors_from_json(doc: &Option<Json>) -> (r: Vec<MonitorInfo>)
    ensures
        views_of(r@) == monitors_in(*doc),
{
    let mut r: Vec<MonitorInfo> = Vec::new();
    match doc {
        Some(Json::Array(items)) => {
            let mut i: usize = 0;
            while i < items.len()
                invariant
                    i <= items.len(),
                    views_of(r@) == monitors_of_items(items@.take(i as int)),
                decreases items.len() - i,
            {
                assert(items@.take(i + 1).drop_last() =~= items@.take(i as int));
                let ghost before = r@;
                match monitor_from(&items[i]) {
                    Some(m) => {
                        r.push(m);
                        assert(views_of(r@) =~= views_of(before).push(r@.last()@));
                    },
                    None => {},
                }
                i = i + 1;
            }
            assert(items@.take(i as int) =~= items@);
        },
        _ => {},
    }
    r
}

/// The monitors in the JSON that `hyprctl monitors -j` prints; text that is
/// not JSON, or JSON that is not an array, lists none.
pub fn parse_monitors_json(json_str: &str) -> (r: Vec<MonitorInfo>)
    ensures
        views_of(r@) == monitors_in(json_decoded(json_str@)),
{
    let doc = parse_json(json_str);
    monitors_from_json(&doc)
}

// ---------------------------------------------------------------------
// Names and selection
// ---------------------------------------------------------------------

/// How the monitor selector lists a monitor: `name (WxH)` without a
/// description, `name — description` with one.
pub open spec fn display_name(m: MonitorModel) -> Seq<char> {
    if m.description.len() == 0 {
        m.name + " ("@ + decimal_digits(m.width as nat) + "x"@ + decimal_digits(m.height as nat)
            + ")"@
    } else {
        m.name + " \u{2014} "@ + m.description
    }
}

pub fn monitor_display_name(m: &MonitorInfo) -> (r: String)
    ensures
        r@ == display_name(m@),
{
    let mut r = m.name.clone();
    if m.description.as_str().is_empty() {
        r.append(" (");
        let w = string_of_chars(&decimal_u32(m.width));
        r.append(w.as_str());
        r.append("x");
        let h = string_of_chars(&decimal_u32(m.height));
        r.append(h.as_str());
        r.append(")");
    } else {
        r.append(" \u{2014} ");
        r.append(m.description.as_str());
    }
    r
}

/// The display names of all monitors, in order.
pub fn monitor_display_names(ms: &Vec<MonitorInfo>) -> (r: Vec<String>)
    ensures
        r.len() == ms.len(),
        forall|i: int| 0 <= i < ms.len() ==> (#[trigger] r@[i])@ == display_name(ms@[i]@),
{
    let mut r: Vec<String> = Vec::new();
    let mut i: usize = 0;
    while i < ms.len()
        invariant
            i <= ms.len(),
            r.len() == i,
            forall|j: int| 0 <= j < i ==> (#[trigger] r@[j])@ == display_name(ms@[j]@),
        decreases ms.len() - i,
    {
        r.push(monitor_display_name(&ms[i]));
        i = i + 1;
    }
    r
}

/// The name of the monitor at position `index` of the selector.
pub fn monitor_name_at(ms: &Vec<MonitorInfo>, index: u32) -> (r: Option<String>)
    ensures
        match r {
            Some(n) => index < ms.len() && n@ == ms@[index as int].name@,
            None => index >= ms.len(),
        },
{
    let i = index as usize;
    if i < ms.len() {
        Some(ms[i].name.clone())
    } else {
        None
    }
}

/// The monitor a wallpaper is for: with more than one monitor the one the
/// selector shows (`selected`), otherwise the only one, if any.
pub open spec fn target_monitor_spec(ms: Seq<MonitorModel>, selected: Option<Seq<char>>) -> Option<
    Seq<char>,
> {
    if ms.len() > 1 {
        selected
    } else if ms.len() == 1 {
        Some(ms[0].name)
    } else {
        None
    }
}

pub fn target_monitor(ms: &Vec<MonitorInfo>, selected: Option<String>) -> (r: Option<String>)
    ensures
        match r {
            Some(n) => target_monitor_spec(views_of(ms@), view_opt(selected)) == Some(n@),
            None => target_monitor_spec(views_of(ms@), view_opt(selected)) is None,
        },
{
    if ms.len() > 1 {
        selected
    } else if ms.len() == 1 {
        Some(ms[0].name.clone())
    } else {
        None
    }
}

/// A monitor is listed under its own name: a description follows the name
/// after a dash, and without a description the size follows it.
pub proof fn display_name_shows_the_monitor(m: MonitorModel)
    ensures
        display_name(m).len() >= m.name.len(),
        display_name(m).subrange(0, m.name.len() as int) == m.name,
        m.description.len() > 0 ==> display_name(m).subrange(
            display_name(m).len() - m.description.len(),
            display_name(m).len() as int,
        ) == m.description,
        m.description.len() == 0 ==> display_name(m).subrange(
            m.name.len() as int,
            display_name(m).len() as int,
        ) == " ("@ + decimal_digits(m.width as nat) + "x"@ + decimal_digits(m.height as nat)
            + ")"@,
{
    let d = display_name(m);
    if m.description.len() == 0 {
        let tail = " ("@ + decimal_digits(m.width as nat) + "x"@ + decimal_digits(m.height as nat)
            + ")"@;
        assert(d =~= m.name + tail);
        assert(d.subrange(0, m.name.len() as int) =~= m.name);
        assert(d.subrange(m.name.len() as int, d.len() as int) =~= tail);
    } else {
        assert(d.subrange(0, m.name.len() as int) =~= m.name);
        assert(d.subrange(d.len() - m.description.len(), d.len() as int) =~= m.description);
    }
}

/// With one monitor a wallpaper goes to it whatever the selector shows;
/// with several, to the selected one; with none, nowhere.
pub proof fn wallpaper_goes_to_the_right_monitor(
    ms: Seq<MonitorModel>,
    selected: Option<Seq<char>>,
    other: Option<Seq<char>>,
)
    ensures
        ms.len() == 1 ==> target_monitor_spec(ms, selected) == Some(ms[0].name)
            && target_monitor_spec(ms, other) == target_monitor_spec(ms, selected),
        ms.len() > 1 ==> target_monitor_spec(ms, selected) == selected,
        ms.len() == 0 ==> target_monitor_spec(ms, selected) is None,
{
}

} // verus!
