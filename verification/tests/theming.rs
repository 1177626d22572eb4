use video_wallpaper::json::{Json, JsonNumber};
use video_wallpaper::theming::{
    generate_css, hex_to_css, load_scheme_colors, scheme_colors_from_json,
};

#[test]
fn hex_colours_become_css() {
    assert_eq!(hex_to_css("1a1b26"), "#1a1b26");
    assert_eq!(hex_to_css(""), "#");
}

#[test]
fn scheme_colours_with_defaults() {
    let data = r#"{"name":"x","colours":{"background":"101010","primary":"ff0000","error":7}}"#;
    let c = load_scheme_colors(data).unwrap();
    assert_eq!(c.background, "#101010");
    assert_eq!(c.primary, "#ff0000");
    assert_eq!(c.error, "#888888");
    assert_eq!(c.on_surface, "#888888");
    assert_eq!(c.surface_container_high, "#888888");
}

#[test]
fn scheme_without_colours() {
    assert!(load_scheme_colors("not json").is_none());
    assert!(load_scheme_colors(r#"{"scheme":"dark"}"#).is_none());
    assert!(load_scheme_colors("[1,2]").is_none());
    assert!(scheme_colors_from_json(&None).is_none());
    // A `colours` member that is not an object gives the default everywhere.
    let doc = Json::Object(vec![("colours".to_string(), Json::Number(JsonNumber::PosInt(3)))]);
    let c = scheme_colors_from_json(&Some(doc)).unwrap();
    assert_eq!(c.secondary_container, "#888888");
}

#[test]
fn css_uses_the_scheme() {
    let data = r#"{"colours":{"background":"000001","onSurface":"000002","surfaceContainer":"000003","primary":"000004","error":"000005","onSecondaryContainer":"000006","outline":"000007","outlineVariant":"000008"}}"#;
    let css = generate_css(&load_scheme_colors(data).unwrap());
    assert!(css.starts_with("\nwindow, .background {\n    background-color: #000001;\n    color: #000002;"));
    assert!(css.contains(".video-tile {\n    background-color: #000003;"));
    assert!(css.contains("background-color: alpha(#000003, 0.8);"));
    assert!(css.contains(".video-tile.selected {\n    border-color: #000004;\n    border-width: 3px;\n}"));
    assert!(css.contains(".error-label {\n    color: #000005;\n}"));
    assert!(css.contains("border: 2px solid #000008;"));
    assert!(css.contains(".video-tile:hover {\n    border-color: #000007;\n}"));
    assert!(css.ends_with("    color: #000006;\n}\n"));
}
