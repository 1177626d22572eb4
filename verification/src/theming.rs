//! The application's theme: caelestia's Material colour scheme, read from its
//! `scheme.json`, and the stylesheet made from it.
use vstd::prelude::*;
use vstd::string::*;
use crate::json::{json_decoded, json_get, parse_json, Json};
use crate::text::{contains_seq, lemma_contains_in_concat, lemma_contains_self, push_char};

verus! {

/// The colours of caelestia's scheme that the stylesheet uses, each as a
/// CSS colour (`#rrggbb`).
#[derive(Debug, Clone)]
pub struct SchemeColors {
    pub background: String,
    pub surface_container: String,
    pub surface_container_high: String,
    pub on_surface: String,
    pub on_surface_variant: String,
    pub outline: String,
    pub outline_variant: String,
    pub primary: String,
    pub primary_container: String,
    pub on_primary_container: String,
    pub secondary_container: String,
    pub on_secondary_container: String,
    pub error: String,
}

/// A hexadecimal colour as CSS writes it.
pub open spec fn css_hex(hex: Seq<char>) -> Seq<char> {
    seq!['#'] + hex
}

pub fn hex_to_css(hex: &str) -> (r: String)
    ensures
        r@ == css_hex(hex@),
{
    let mut r = String::new();
    push_char(&mut r, '#');
    r.append(hex);
    r
}

/// The CSS colour of one entry of the scheme's `colours`: its string as a
/// CSS colour, or grey when it is missing or not a string.
pub open spec fn colour_at(colours: Json, key: Seq<char>) -> Seq<char> {
    match json_get(colours, key) {
        Some(Json::Str(s)) => css_hex(s@),
        _ => "#888888"@,
    }
}

/// The `colours` member of a decoded scheme document.
pub open spec fn colours_of(doc: Option<Json>) -> Option<Json> {
    match doc {
        Some(d) => json_get(d, "colours"@),
        None => None,
    }
}

/// `c` holds the colours that `colours` gives.
pub open spec fn colors_match(c: SchemeColors, colours: Json) -> bool {
    &&& c.background@ == colour_at(colours, "background"@)
    &&& c.surface_container@ == colour_at(colours, "surfaceContainer"@)
    &&& c.surface_container_high@ == colour_at(colours, "surfaceContainerHigh"@)
    &&& c.on_surface@ == colour_at(colours, "onSurface"@)
    &&& c.on_surface_variant@ == colour_at(colours, "onSurfaceVariant"@)
    &&& c.outline@ == colour_at(colours, "outline"@)
    &&& c.outline_variant@ == colour_at(colours, "outlineVariant"@)
    &&& c.primary@ == colour_at(colours, "primary"@)
    &&& c.primary_container@ == colour_at(colours, "primaryContainer"@)
    &&& c.on_primary_container@ == colour_at(colours, "onPrimaryContainer"@)
    &&& c.secondary_container@ == colour_at(colours, "secondaryContainer"@)
    &&& c.on_secondary_container@ == colour_at(colours, "onSecondaryContainer"@)
    &&& c.error@ == colour_at(colours, "error"@)
}

fn colour(colours: &Json, key: &str) -> (r: String)
    ensures
        r@ == colour_at(*colours, key@),
{
    match colours.get(key) {
        Some(Json::Str(s)) => hex_to_css(s.as_str()),
        _ => String::from_str("#888888"),
    }
}

/// The scheme's colours, when the document has a `colours` member.
pub fn scheme_colors_from_json(doc: &Option<Json>) -> (r: Option<SchemeColors>)
    ensures
        match r {
            Some(c) => colours_of(*doc) is Some && colors_match(c, colours_of(*doc)->0),
            None => colours_of(*doc) is None,
        },
{
    let d = match doc {
        Some(d) => d,
        None => return None,
    };
    let c = match d.get("colours") {
        Some(c) => c,
        None => return None,
    };
    Some(
        SchemeColors {
            background: colour(c, "background"),
            surface_container: colour(c, "surfaceContainer"),
            surface_container_high: colour(c, "surfaceContainerHigh"),
            on_surface: colour(c, "onSurface"),
            on_surface_variant: colour(c, "onSurfaceVariant"),
            outline: colour(c, "outline"),
            outline_variant: colour(c, "outlineVariant"),
            primary: colour(c, "primary"),
            primary_container: colour(c, "primaryContainer"),
            on_primary_container: colour(c, "onPrimaryContainer"),
            secondary_container: colour(c, "secondaryContainer"),
            on_secondary_container: colour(c, "onSecondaryContainer"),
            error: colour(c, "error"),
        },
    )
}

/// The colours of the text of caelestia's `scheme.json`: none when it is not
/// JSON or has no `colours` member.
pub fn load_scheme_colors(data: &str) -> (r: Option<SchemeColors>)
    ensures
        match r {
            Some(c) => colours_of(json_decoded(data@)) is Some && colors_match(
                c,
                colours_of(json_decoded(data@))->0,
            ),
            None => colours_of(json_decoded(data@)) is None,
        },
{
    let doc = parse_json(data);
    scheme_colors_from_json(&doc)
}

/// The stylesheet for a scheme.
pub open spec fn css_of(c: SchemeColors) -> Seq<char> {
    "\n"@
        + ("window, .background {\n    background-color: "@ + c.background@ + ";\n    color: "@ + c.on_surface@ + ";\n    border-radius: 16px;\n}"@)
        + "\n\n"@
        + (".video-tile {\n    background-color: "@ + c.surface_container@ + ";\n    border: 2px solid "@ + c.outline_variant@ + ";\n    border-radius: 16px;\n}"@)
        + "\n\n"@
        + (".video-tile:hover {\n    border-color: "@ + c.outline@ + ";\n}"@)
        + "\n\n"@
        + (".video-tile.selected {\n    border-color: "@ + c.primary@ + ";\n    border-width: 3px;\n}"@)
        + "\n\n"@
        + (".video-tile.focused {\n    border-color: "@ + c.primary@ + ";\n    border-width: 3px;\n}"@)
        + "\n\n"@
        + (".settings-gear {\n    background-color: alpha("@ + c.surface_container@ + ", 0.8);\n    color: "@ + c.on_surface_variant@ + ";\n}"@)
        + "\n\n"@
        + (".settings-gear:hover {\n    background-color: "@ + c.primary_container@ + ";\n    color: "@ + c.on_primary_container@ + ";\n}"@)
        + "\n\n"@
        + (".monitor-selector {\n    background-color: "@ + c.surface_container@ + ";\n    color: "@ + c.on_surface@ + ";\n    border-radius: 8px;\n    border: 1px solid "@ + c.outline_variant@ + ";\n}"@)
        + "\n\n"@
        + (".empty-state {\n    color: "@ + c.on_surface_variant@ + ";\n}"@)
        + "\n\n"@
        + ("preferencesgroup {\n    background-color: "@ + c.surface_container@ + ";\n}"@)
        + "\n\n"@
        + ("row {\n    color: "@ + c.on_surface@ + ";\n}"@)
        + "\n\n"@
        + ("scale trough {\n    background-color: "@ + c.surface_container_high@ + ";\n}"@)
        + "\n\n"@
        + ("scale trough highlight {\n    background-color: "@ + c.primary@ + ";\n}"@)
        + "\n\n"@
        + ("switch {\n    background-color: "@ + c.surface_container_high@ + ";\n}"@)
        + "\n\n"@
        + ("switch:checked {\n    background-color: "@ + c.primary@ + ";\n}"@)
        + "\n\n.gallery-scroll {\n    background-color: transparent;\n}\n\n"@
        + (".error-label {\n    color: "@ + c.error@ + ";\n}"@)
        + "\n\n"@
        + (".secondary-container {\n    background-color: "@ + c.secondary_container@ + ";\n    color: "@ + c.on_secondary_container@ + ";\n}"@)
        + "\n"@
}

/// `a`, `b` and `e` one after the other.
fn rule3(a: &str, b: &str, e: &str) -> (r: String)
    ensures
        r@ == a@ + b@ + e@,
{
    let mut r = String::from_str(a);
    r.append(b);
    r.append(e);
    r
}

/// `a` to `e` one after the other.
fn rule5(a: &str, b: &str, x: &str, d: &str, e: &str) -> (r: String)
    ensures
        r@ == a@ + b@ + x@ + d@ + e@,
{
    let mut r = rule3(a, b, x);
    r.append(d);
    r.append(e);
    r
}

/// `a` to `g` one after the other.
fn rule7(a: &str, b: &str, x: &str, d: &str, e: &str, f: &str, g: &str) -> (r: String)
    ensures
        r@ == a@ + b@ + x@ + d@ + e@ + f@ + g@,
{
    let mut r = rule5(a, b, x, d, e);
    r.append(f);
    r.append(g);
    r
}

/// The stylesheet for a scheme, as `css_of` gives it.
pub fn generate_css(c: &SchemeColors) -> (r: String)
    ensures
        r@ == css_of(*c),
{
    let mut r = String::from_str("\n");
    let rule = rule5(
        "window, .background {\n    background-color: ",
        c.background.as_str(),
        ";\n    color: ",
        c.on_surface.as_str(),
        ";\n    border-radius: 16px;\n}",
    );
    r.append(rule.as_str());
    r.append("\n\n");
    let rule = rule5(
        ".video-tile {\n    background-color: ",
        c.surface_container.as_str(),
        ";\n    border: 2px solid ",
        c.outline_variant.as_str(),
        ";\n    border-radius: 16px;\n}",
    );
    r.append(rule.as_str());
    r.append("\n\n");
    let rule = rule3(
        ".video-tile:hover {\n    border-color: ",
        c.outline.as_str(),
        ";\n}",
    );
    r.append(rule.as_str());
    r.append("\n\n");
    let rule = rule3(
        ".video-tile.selected {\n    border-color: ",
        c.primary.as_str(),
        ";\n    border-width: 3px;\n}",
    );
    r.append(rule.as_str());
    r.append("\n\n");
    let rule = rule3(
        ".video-tile.focused {\n    border-color: ",
        c.primary.as_str(),
        ";\n    border-width: 3px;\n}",
    );
    r.append(rule.as_str());
    r.append("\n\n");
    let rule = rule5(
        ".settings-gear {\n    background-color: alpha(",
        c.surface_container.as_str(),
        ", 0.8);\n    color: ",
        c.on_surface_variant.as_str(),
        ";\n}",
    );
    r.append(rule.as_str());
    r.append("\n\n");
    let rule = rule5(
        ".settings-gear:hover {\n    background-color: ",
        c.primary_container.as_str(),
        ";\n    color: ",
        c.on_primary_container.as_str(),
        ";\n}",
    );
    r.append(rule.as_str());
    r.append("\n\n");
    let rule = rule7(
        ".monitor-selector {\n    background-color: ",
        c.surface_container.as_str(),
        ";\n    color: ",
        c.on_surface.as_str(),
        ";\n    border-radius: 8px;\n    border: 1px solid ",
        c.outline_variant.as_str(),
        ";\n}",
    );
    r.append(rule.as_str());
    r.append("\n\n");
    let rule = rule3(
        ".empty-state {\n    color: ",
        c.on_surface_variant.as_str(),
        ";\n}",
    );
    r.append(rule.as_str());
    r.append("\n\n");
    let rule = rule3(
        "preferencesgroup {\n    background-color: ",
        c.surface_container.as_str(),
        ";\n}",
    );
    r.append(rule.as_str());
    r.append("\n\n");
    let rule = rule3(
        "row {\n    color: ",
        c.on_surface.as_str(),
        ";\n}",
    );
    r.append(rule.as_str());
    r.append("\n\n");
    let rule = rule3(
        "scale trough {\n    background-color: ",
        c.surface_container_high.as_str(),
        ";\n}",
    );
    r.append(rule.as_str());
    r.append("\n\n");
    let rule = rule3(
        "scale trough highlight {\n    background-color: ",
        c.primary.as_str(),
        ";\n}",
    );
    r.append(rule.as_str());
    r.append("\n\n");
    let rule = rule3(
        "switch {\n    background-color: ",
        c.surface_container_high.as_str(),
        ";\n}",
    );
    r.append(rule.as_str());
    r.append("\n\n");
    let rule = rule3(
        "switch:checked {\n    background-color: ",
        c.primary.as_str(),
        ";\n}",
    );
    r.append(rule.as_str());
    r.append("\n\n.gallery-scroll {\n    background-color: transparent;\n}\n\n");
    let rule = rule3(
        ".error-label {\n    color: ",
        c.error.as_str(),
        ";\n}",
    );
    r.append(rule.as_str());
    r.append("\n\n");
    let rule = rule5(
        ".secondary-container {\n    background-color: ",
        c.secondary_container.as_str(),
        ";\n    color: ",
        c.on_secondary_container.as_str(),
        ";\n}",
    );
    r.append(rule.as_str());
    r.append("\n");
    r
}

/// Each rule of the stylesheet takes its colours from the scheme: the window
/// from the background and on-surface colours, tiles from the surface
/// container and outline variant, a hovered tile from the outline, a
/// selected or focused tile from the primary colour, and so on for the
/// settings gear, the monitor selector, the empty state, preference groups,
/// rows, scales, switches, the error label and secondary containers.
pub proof fn stylesheet_uses_scheme_colours(c: SchemeColors)
    ensures
        contains_seq(
            css_of(c),
            ("window, .background {\n    background-color: "@ + c.background@ + ";\n    color: "@ + c.on_surface@ + ";\n    border-radius: 16px;\n}"@),
        ),
        contains_seq(
            css_of(c),
            (".video-tile {\n    background-color: "@ + c.surface_container@ + ";\n    border: 2px solid "@ + c.outline_variant@ + ";\n    border-radius: 16px;\n}"@),
        ),
        contains_seq(
            css_of(c),
            (".video-tile:hover {\n    border-color: "@ + c.outline@ + ";\n}"@),
        ),
        contains_seq(
            css_of(c),
            (".video-tile.selected {\n    border-color: "@ + c.primary@ + ";\n    border-width: 3px;\n}"@),
        ),
        contains_seq(
            css_of(c),
            (".video-tile.focused {\n    border-color: "@ + c.primary@ + ";\n    border-width: 3px;\n}"@),
        ),
        contains_seq(
            css_of(c),
            (".settings-gear {\n    background-color: alpha("@ + c.surface_container@ + ", 0.8);\n    color: "@ + c.on_surface_variant@ + ";\n}"@),
        ),
        contains_seq(
            css_of(c),
            (".settings-gear:hover {\n    background-color: "@ + c.primary_container@ + ";\n    color: "@ + c.on_primary_container@ + ";\n}"@),
        ),
        contains_seq(
            css_of(c),
            (".monitor-selector {\n    background-color: "@ + c.surface_container@ + ";\n    color: "@ + c.on_surface@ + ";\n    border-radius: 8px;\n    border: 1px solid "@ + c.outline_variant@ + ";\n}"@),
        ),
        contains_seq(
            css_of(c),
            (".empty-state {\n    color: "@ + c.on_surface_variant@ + ";\n}"@),
        ),
        contains_seq(
            css_of(c),
            ("preferencesgroup {\n    background-color: "@ + c.surface_container@ + ";\n}"@),
        ),
        contains_seq(
            css_of(c),
            ("row {\n    color: "@ + c.on_surface@ + ";\n}"@),
        ),
        contains_seq(
            css_of(c),
            ("scale trough {\n    background-color: "@ + c.surface_container_high@ + ";\n}"@),
        ),
        contains_seq(
            css_of(c),
            ("scale trough highlight {\n    background-color: "@ + c.primary@ + ";\n}"@),
        ),
        contains_seq(
            css_of(c),
            ("switch {\n    background-color: "@ + c.surface_container_high@ + ";\n}"@),
        ),
        contains_seq(
            css_of(c),
            ("switch:checked {\n    background-color: "@ + c.primary@ + ";\n}"@),
        ),
        contains_seq(
            css_of(c),
            (".error-label {\n    color: "@ + c.error@ + ";\n}"@),
        ),
        contains_seq(
            css_of(c),
            (".secondary-container {\n    background-color: "@ + c.secondary_container@ + ";\n    color: "@ + c.on_secondary_container@ + ";\n}"@),
        ),
{
    broadcast use lemma_contains_in_concat;

    lemma_contains_self(("window, .background {\n    background-color: "@ + c.background@ + ";\n    color: "@ + c.on_surface@ + ";\n    border-radius: 16px;\n}"@));
    lemma_contains_self((".video-tile {\n    background-color: "@ + c.surface_container@ + ";\n    border: 2px solid "@ + c.outline_variant@ + ";\n    border-radius: 16px;\n}"@));
    lemma_contains_self((".video-tile:hover {\n    border-color: "@ + c.outline@ + ";\n}"@));
    lemma_contains_self((".video-tile.selected {\n    border-color: "@ + c.primary@ + ";\n    border-width: 3px;\n}"@));
    lemma_contains_self((".video-tile.focused {\n    border-color: "@ + c.primary@ + ";\n    border-width: 3px;\n}"@));
    lemma_contains_self((".settings-gear {\n    background-color: alpha("@ + c.surface_container@ + ", 0.8);\n    color: "@ + c.on_surface_variant@ + ";\n}"@));
    lemma_contains_self((".settings-gear:hover {\n    background-color: "@ + c.primary_container@ + ";\n    color: "@ + c.on_primary_container@ + ";\n}"@));
    lemma_contains_self((".monitor-selector {\n    background-color: "@ + c.surface_container@ + ";\n    color: "@ + c.on_surface@ + ";\n    border-radius: 8px;\n    border: 1px solid "@ + c.outline_variant@ + ";\n}"@));
    lemma_contains_self((".empty-state {\n    color: "@ + c.on_surface_variant@ + ";\n}"@));
    lemma_contains_self(("preferencesgroup {\n    background-color: "@ + c.surface_container@ + ";\n}"@));
    lemma_contains_self(("row {\n    color: "@ + c.on_surface@ + ";\n}"@));
    lemma_contains_self(("scale trough {\n    background-color: "@ + c.surface_container_high@ + ";\n}"@));
    lemma_contains_self(("scale trough highlight {\n    background-color: "@ + c.primary@ + ";\n}"@));
    lemma_contains_self(("switch {\n    background-color: "@ + c.surface_container_high@ + ";\n}"@));
    lemma_contains_self(("switch:checked {\n    background-color: "@ + c.primary@ + ";\n}"@));
    lemma_contains_self((".error-label {\n    color: "@ + c.error@ + ";\n}"@));
    lemma_contains_self((".secondary-container {\n    background-color: "@ + c.secondary_container@ + ";\n    color: "@ + c.on_secondary_container@ + ";\n}"@));
}

} // verus!
