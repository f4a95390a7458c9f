use whisker_theme::catalog::{base_menu_pattern, is_menu_rc_name};
use whisker_theme::color::{hex_to_rgba, ColorError};
use whisker_theme::pattern::substitute;
use whisker_theme::text::chars_of;
use whisker_theme::updates::{
    apply_border_color, apply_menu_colors, apply_panel_rgba, apply_rc_batch, apply_rc_opacity,
    apply_search_colors, RcFile,
};

const THEME: &str = ".background {\n    color: #ffffff;\n    background-color: #111111;\n}\n";

const SEARCH_THEME: &str = "entry {\n  border: 1px solid;\n  padding: 5px;\n  caret-color: #ffffff;\n  border-radius: 3px;\n  transition: all 0.3s;\n  color: #ffffff;\n  border-color: #000000;\n  background-color: #333333;\n}\n\nentry:focus {\n  background-clip: padding-box;\n  color: #ffffff;\n  border-color: #000000;\n  background-color: #444444;\n}\n";

const PANEL: &str = "<property name=\"background-rgba\" type=\"array\">\n  <value type=\"double\" value=\"0.0\"/>\n  <value type=\"double\" value=\"0.0\"/>\n  <value type=\"double\" value=\"0.0\"/>\n  <value type=\"double\" value=\"0.0\"/>\n</property>";

#[test]
fn base_menu_splice_touches_only_the_captured_value() {
    let rgba = hex_to_rgba("#ffffff", "0").unwrap();
    let text = chars_of(THEME);
    let pattern = base_menu_pattern();
    let vals = vec![chars_of(&rgba)];
    let (out, count) = substitute(&text, &pattern, &vals);
    let result: String = out.iter().collect();
    assert_eq!(count, 1);
    assert_eq!(
        result,
        ".background {\n    color: #ffffff;\n    background-color: rgba(255, 255, 255, 0);\n}\n"
    );
}

#[test]
fn menu_update_sets_base_color_at_fixed_opacities() {
    let (out, base_count, opacity_count) = apply_menu_colors(THEME, "#ffffff").unwrap();
    assert_eq!(base_count, 1);
    assert_eq!(opacity_count, 0);
    assert_eq!(
        out,
        ".background {\n    color: #ffffff;\n    background-color: rgba(255, 255, 255, 0.99);\n}\n"
    );
}

#[test]
fn menu_update_sets_opacity_layer_to_zero_alpha() {
    let theme = ".view,\niconview,\n.view text,\niconview text,\ntextview text {\n  color: #ffffff;\n  background-color: #222222;\n}\n";
    let (out, base_count, opacity_count) = apply_menu_colors(theme, "#0000ff").unwrap();
    assert_eq!(base_count, 0);
    assert_eq!(opacity_count, 1);
    assert_eq!(
        out,
        ".view,\niconview,\n.view text,\niconview text,\ntextview text {\n  color: #ffffff;\n  background-color: rgba(0, 0, 255, 0);\n}\n"
    );
}

#[test]
fn menu_update_rejects_bad_hex() {
    assert_eq!(
        apply_menu_colors(THEME, "#12345").unwrap_err(),
        ColorError::InvalidFormat
    );
}

#[test]
fn panel_update_writes_the_four_components_in_order() {
    let (out, count) = apply_panel_rgba(PANEL, "#336699", "0.8").unwrap();
    assert_eq!(count, 1);
    assert_eq!(
        out,
        "<property name=\"background-rgba\" type=\"array\">\n  <value type=\"double\" value=\"0.2\"/>\n  <value type=\"double\" value=\"0.4\"/>\n  <value type=\"double\" value=\"0.6\"/>\n  <value type=\"double\" value=\"0.8\"/>\n</property>"
    );
}

#[test]
fn panel_update_rejects_bad_opacity() {
    assert_eq!(
        apply_panel_rgba(PANEL, "#336699", "1.5").unwrap_err(),
        ColorError::OutOfRange
    );
}

#[test]
fn search_update_recolors_both_states() {
    let (out, focus_count, unfocused_count) =
        apply_search_colors(SEARCH_THEME, "#112233", "0.5").unwrap();
    assert_eq!(focus_count, 1);
    assert_eq!(unfocused_count, 1);
    let expected = SEARCH_THEME
        .replace("background-color: #333333;", "background-color: rgba(17, 34, 51, 0.5);")
        .replace("background-color: #444444;", "background-color: rgba(17, 34, 51, 0.5);");
    assert_eq!(out, expected);
}

#[test]
fn border_update_replaces_only_the_border_color() {
    let (out, count) = apply_border_color(SEARCH_THEME, "#abcdef").unwrap();
    assert_eq!(count, 1);
    let expected = SEARCH_THEME.replacen("border-color: #000000;", "border-color: #abcdef;", 1);
    assert_eq!(out, expected);
}

#[test]
fn rc_opacity_is_truncated_percentage() {
    let (out, count) = apply_rc_opacity("menu-opacity=50\nbutton-icon=16\n", "0.8").unwrap();
    assert_eq!(count, 1);
    assert_eq!(out, "menu-opacity=80\nbutton-icon=16\n");

    let (out, _) = apply_rc_opacity("menu-opacity=50\n", "0.999").unwrap();
    assert_eq!(out, "menu-opacity=99\n");

    let (out, _) = apply_rc_opacity("menu-opacity=0.8\n", "1.0").unwrap();
    assert_eq!(out, "menu-opacity=100\n");
}

#[test]
fn rc_opacity_rejects_out_of_range() {
    assert_eq!(
        apply_rc_opacity("menu-opacity=50\n", "1.25").unwrap_err(),
        ColorError::OutOfRange
    );
}

#[test]
fn pattern_miss_returns_input_unchanged() {
    let plain = "nothing structural in here; just text {}\n";
    let (out, a, b) = apply_menu_colors(plain, "#ffffff").unwrap();
    assert_eq!(out, plain);
    assert_eq!((a, b), (0, 0));

    let (out, a, b) = apply_search_colors(plain, "#ffffff", "0.5").unwrap();
    assert_eq!(out, plain);
    assert_eq!((a, b), (0, 0));

    let (out, count) = apply_panel_rgba(plain, "#ffffff", "0.5").unwrap();
    assert_eq!(out, plain);
    assert_eq!(count, 0);

    let (out, count) = apply_border_color(plain, "#ffffff").unwrap();
    assert_eq!(out, plain);
    assert_eq!(count, 0);

    let (out, count) = apply_rc_opacity(plain, "0.5").unwrap();
    assert_eq!(out, plain);
    assert_eq!(count, 0);
}

#[test]
fn menu_file_names_need_a_numeric_suffix() {
    assert!(is_menu_rc_name("whiskermenu-1.rc"));
    assert!(is_menu_rc_name("whiskermenu-42.rc"));
    assert!(is_menu_rc_name("panel/whiskermenu-7.rc"));
    assert!(!is_menu_rc_name("whiskermenu-.rc"));
    assert!(!is_menu_rc_name("whiskermenu-1.txt"));
    assert!(!is_menu_rc_name("notes.txt"));
    assert!(!is_menu_rc_name("whiskermenu-1.rc.bak"));
}

#[test]
fn batch_update_touches_only_numbered_menu_files() {
    let files = vec![
        RcFile { name: String::from("whiskermenu-1.rc"), content: String::from("menu-opacity=50\n") },
        RcFile { name: String::from("whiskermenu-2.rc"), content: String::from("menu-opacity=25\n") },
        RcFile { name: String::from("notes.txt"), content: String::from("menu-opacity=50\n") },
    ];
    let out = apply_rc_batch(&files, "0.8").unwrap();
    assert_eq!(out.len(), 3);
    assert_eq!(out[0].name, "whiskermenu-1.rc");
    assert_eq!(out[0].content, "menu-opacity=80\n");
    assert_eq!(out[1].name, "whiskermenu-2.rc");
    assert_eq!(out[1].content, "menu-opacity=80\n");
    assert_eq!(out[2].name, "notes.txt");
    assert_eq!(out[2].content, "menu-opacity=50\n");
}

#[test]
fn batch_update_rejects_out_of_range_opacity() {
    let files = vec![RcFile {
        name: String::from("whiskermenu-1.rc"),
        content: String::from("menu-opacity=50\n"),
    }];
    assert_eq!(apply_rc_batch(&files, "2").unwrap_err(), ColorError::OutOfRange);
}

#[test]
fn every_matching_block_is_substituted_left_to_right() {
    let theme = "entry:focus {\n background-clip: a;\n color: b;\n border-color: c;\n background-color: #111111;\n}\nentry:focus {\n background-clip: d;\n color: e;\n border-color: f;\n background-color: #222222;\n}\n";
    let (out, focus_count, unfocused_count) =
        apply_search_colors(theme, "#ffffff", "0.25").unwrap();
    assert_eq!(focus_count, 2);
    assert_eq!(unfocused_count, 0);
    let expected = theme
        .replace("background-color: #111111;", "background-color: rgba(255, 255, 255, 0.25);")
        .replace("background-color: #222222;", "background-color: rgba(255, 255, 255, 0.25);");
    assert_eq!(out, expected);
}

#[test]
fn anchors_tolerate_tabs_and_extra_blanks() {
    let theme = ".background\t{\n\n\tcolor:   #ffffff  ;\n\t\tbackground-color:\t#111111 ;\n}\n";
    let (out, base_count, _) = apply_menu_colors(theme, "#102030").unwrap();
    assert_eq!(base_count, 1);
    assert_eq!(
        out,
        ".background\t{\n\n\tcolor:   #ffffff  ;\n\t\tbackground-color:\trgba(16, 32, 48, 0.99);\n}\n"
    );
}

#[test]
fn base_menu_anchor_skips_unrelated_declarations() {
    let theme = ".background {\n  margin: 0;\n  color: #ffffff;\n  background-color: #111111;\n}\n";
    let (out, base_count, _) = apply_menu_colors(theme, "#000000").unwrap();
    assert_eq!(base_count, 1);
    assert!(out.contains("background-color: rgba(0, 0, 0, 0.99);"));
    assert!(out.contains("margin: 0;"));
}
