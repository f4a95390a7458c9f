//! The update routines: pure text transformations that a caller wraps
//! with file reading and writing.
//!
//! Each routine takes the whole content of one target file, converts its
//! colors, substitutes the captured spans of the matching anchors, and
//! returns the new content together with the number of matches, so that
//! a caller can tell a substitution apart from a silent pattern miss.

use vstd::prelude::*;

use crate::catalog::{
    base_menu_pat, base_menu_pattern, border_pat, border_pattern, is_menu_rc, is_menu_rc_name,
    menu_opacity_pat, menu_opacity_pattern, panel_pat, panel_pattern, rc_opacity_pat,
    rc_opacity_pattern, search_focus_pat, search_focus_pattern, search_unfocused_pat,
    search_unfocused_pattern,
};
use crate::color::{
    hex_blue, hex_green, hex_is_valid, hex_red, hex_rgba_text, hex_to_normalized_rgba, hex_to_rgba,
    norm_text, opacity_is_valid, opacity_percent, opacity_to_percent, valid_hex, valid_opacity,
    ColorError,
};
use crate::digits::{append_dec, dec_rep, is_digit};
use crate::pattern::{match_count, substitute, substituted, vals_view};
use crate::text::{chars_of, string_of};

verus! {

/// One menu configuration file: its name and its whole text content.
#[derive(Debug)]
pub struct RcFile {
    /// The file's name, without its directory.
    pub name: String,
    /// The file's whole text content.
    pub content: String,
}

/// The theme text after the base menu substitution: the captured
/// background color replaced by the rgba text of `hex` at opacity 0.99.
pub open spec fn menu_base_updated(t: Seq<char>, hex: Seq<char>) -> Seq<char> {
    substituted(t, base_menu_pat(), seq![hex_rgba_text(hex, "0.99"@)])
}

/// The theme text after both menu substitutions: the base menu color at
/// opacity 0.99, then the menu opacity layer at opacity 0.
pub open spec fn menu_theme_updated(t: Seq<char>, hex: Seq<char>) -> Seq<char> {
    substituted(menu_base_updated(t, hex), menu_opacity_pat(), seq![hex_rgba_text(hex, "0"@)])
}

/// The theme text after the focused search bar substitution.
pub open spec fn search_focus_updated(t: Seq<char>, hex: Seq<char>, op: Seq<char>) -> Seq<char> {
    substituted(t, search_focus_pat(), seq![hex_rgba_text(hex, op)])
}

/// The theme text after both search bar substitutions: first the focused
/// rule, then the unfocused one, both set to the rgba text of `hex` at
/// opacity `op`.
pub open spec fn search_updated(t: Seq<char>, hex: Seq<char>, op: Seq<char>) -> Seq<char> {
    substituted(search_focus_updated(t, hex, op), search_unfocused_pat(), seq![hex_rgba_text(hex, op)])
}

/// The four replacement texts of the panel block: the normalized color
/// components, then the opacity text itself.
pub open spec fn panel_vals(hex: Seq<char>, op: Seq<char>) -> Seq<Seq<char>> {
    seq![norm_text(hex_red(hex)), norm_text(hex_green(hex)), norm_text(hex_blue(hex)), op]
}

/// The panel text after the background substitution.
pub open spec fn panel_updated(t: Seq<char>, hex: Seq<char>, op: Seq<char>) -> Seq<char> {
    substituted(t, panel_pat(), panel_vals(hex, op))
}

/// The border text after the substitution: the captured border color
/// replaced by the hex text itself.
pub open spec fn border_updated(t: Seq<char>, hex: Seq<char>) -> Seq<char> {
    substituted(t, border_pat(), seq![hex])
}

/// A menu `.rc` text after the numeric substitution: the captured value
/// replaced by the whole truncated percentage of the opacity.
pub open spec fn rc_updated(t: Seq<char>, op: Seq<char>) -> Seq<char> {
    substituted(t, rc_opacity_pat(), seq![dec_rep(opacity_percent(op))])
}

proof fn lemma_fixed_opacities_valid()
    ensures
        valid_opacity("0.99"@),
        valid_opacity("0"@),
{
    reveal_strlit("0.99");
    reveal_strlit("0");
    assert("0.99"@.len() == 4);
    assert("0.99"@[0] == '0');
    assert("0.99"@[1] == '.');
    assert(is_digit("0.99"@[0]));
    assert forall|i: int| 2 <= i < "0.99"@.len() implies is_digit(#[trigger] "0.99"@[i]) by {
        assert("0.99"@[2] == '9');
        assert("0.99"@[3] == '9');
    }
    assert("0"@.len() == 1);
    assert("0"@[0] == '0');
    assert(is_digit("0"@[0]));
}

/// Updates the whisker menu colors in a theme text: the base menu
/// background becomes the rgba text of `hex_code` at opacity 0.99, and
/// the menu opacity layer background its rgba text at opacity 0. Returns
/// the new text and the match counts of the two anchors.
pub fn apply_menu_colors(content: &str, hex_code: &str) -> (r: Result<
    (String, usize, usize),
    ColorError,
>)
    requires
        content@.len() < usize::MAX,
        menu_base_updated(content@, hex_code@).len() < usize::MAX,
    ensures
        r is Ok <==> valid_hex(hex_code@),
        !valid_hex(hex_code@) ==> r == Result::<(String, usize, usize), ColorError>::Err(
            ColorError::InvalidFormat,
        ),
        r matches Ok(o) ==> (o.0@ == menu_theme_updated(content@, hex_code@) && o.1 as nat
            == match_count(content@, base_menu_pat()) && o.2 as nat == match_count(
            menu_base_updated(content@, hex_code@),
            menu_opacity_pat(),
        )),
{
    proof {
        lemma_fixed_opacities_valid();
    }
    let base_color = match hex_to_rgba(hex_code, "0.99") {
        Ok(s) => s,
        Err(_) => {
            return Err(ColorError::InvalidFormat);
        },
    };
    let new_color = match hex_to_rgba(hex_code, "0") {
        Ok(s) => s,
        Err(_) => {
            proof {
                assert(false);
            }
            return Err(ColorError::InvalidFormat);
        },
    };
    let tv = chars_of(content);
    let pat1 = base_menu_pattern();
    let mut vals1: Vec<Vec<char>> = Vec::new();
    vals1.push(chars_of(base_color.as_str()));
    proof {
        assert(vals_view(vals1@) =~= seq![hex_rgba_text(hex_code@, "0.99"@)]);
    }
    let r1 = substitute(&tv, &pat1, &vals1);
    let mid = r1.0;
    let count1: usize = r1.1;
    let pat2 = menu_opacity_pattern();
    let mut vals2: Vec<Vec<char>> = Vec::new();
    vals2.push(chars_of(new_color.as_str()));
    proof {
        assert(vals_view(vals2@) =~= seq![hex_rgba_text(hex_code@, "0"@)]);
    }
    let r2 = substitute(&mid, &pat2, &vals2);
    Ok((string_of(&r2.0), count1, r2.1))
}

/// Updates the search bar colors in a theme text: the focused and the
/// unfocused rule backgrounds both become the rgba text of `hex_code` at
/// opacity `opacity`. Returns the new text and the match counts of the
/// two anchors.
pub fn apply_search_colors(content: &str, hex_code: &str, opacity: &str) -> (r: Result<
    (String, usize, usize),
    ColorError,
>)
    requires
        content@.len() < usize::MAX,
        search_focus_updated(content@, hex_code@, opacity@).len() < usize::MAX,
    ensures
        r is Ok <==> valid_hex(hex_code@) && valid_opacity(opacity@),
        !valid_hex(hex_code@) ==> r == Result::<(String, usize, usize), ColorError>::Err(
            ColorError::InvalidFormat,
        ),
        valid_hex(hex_code@) && !valid_opacity(opacity@) ==> r == Result::<
            (String, usize, usize),
            ColorError,
        >::Err(ColorError::OutOfRange),
        r matches Ok(o) ==> (o.0@ == search_updated(content@, hex_code@, opacity@) && o.1 as nat
            == match_count(content@, search_focus_pat()) && o.2 as nat == match_count(
            search_focus_updated(content@, hex_code@, opacity@),
            search_unfocused_pat(),
        )),
{
    let rgba = match hex_to_rgba(hex_code, opacity) {
        Ok(s) => s,
        Err(e) => {
            return Err(e);
        },
    };
    let tv = chars_of(content);
    let pat1 = search_focus_pattern();
    let mut vals: Vec<Vec<char>> = Vec::new();
    vals.push(chars_of(rgba.as_str()));
    proof {
        assert(vals_view(vals@) =~= seq![hex_rgba_text(hex_code@, opacity@)]);
    }
    let r1 = substitute(&tv, &pat1, &vals);
    let mid = r1.0;
    let count1: usize = r1.1;
    let pat2 = search_unfocused_pattern();
    let r2 = substitute(&mid, &pat2, &vals);
    Ok((string_of(&r2.0), count1, r2.1))
}

/// Updates the panel background block in a panel text: the four captured
/// values become the normalized components of `hex_code` with `opacity`.
/// Returns the new text and the anchor's match count.
pub fn apply_panel_rgba(content: &str, hex_code: &str, opacity: &str) -> (r: Result<
    (String, usize),
    ColorError,
>)
    requires
        content@.len() < usize::MAX,
    ensures
        r is Ok <==> valid_hex(hex_code@) && valid_opacity(opacity@),
        !valid_hex(hex_code@) ==> r == Result::<(String, usize), ColorError>::Err(
            ColorError::InvalidFormat,
        ),
        valid_hex(hex_code@) && !valid_opacity(opacity@) ==> r == Result::<
            (String, usize),
            ColorError,
        >::Err(ColorError::OutOfRange),
        r matches Ok(o) ==> (o.0@ == panel_updated(content@, hex_code@, opacity@) && o.1 as nat
            == match_count(content@, panel_pat())),
{
    let nr = match hex_to_normalized_rgba(hex_code, opacity) {
        Ok(n) => n,
        Err(e) => {
            return Err(e);
        },
    };
    let tv = chars_of(content);
    let pat = panel_pattern();
    let mut vals: Vec<Vec<char>> = Vec::new();
    vals.push(chars_of(nr.red.as_str()));
    vals.push(chars_of(nr.green.as_str()));
    vals.push(chars_of(nr.blue.as_str()));
    vals.push(chars_of(nr.alpha.as_str()));
    proof {
        assert(vals_view(vals@) =~= panel_vals(hex_code@, opacity@));
    }
    let r1 = substitute(&tv, &pat, &vals);
    Ok((string_of(&r1.0), r1.1))
}

/// Updates the border color in a theme text: the captured border color
/// becomes the hex text itself. Returns the new text and the anchor's
/// match count.
pub fn apply_border_color(content: &str, hex_code: &str) -> (r: Result<(String, usize), ColorError>)
    requires
        content@.len() < usize::MAX,
    ensures
        r is Ok <==> valid_hex(hex_code@),
        !valid_hex(hex_code@) ==> r == Result::<(String, usize), ColorError>::Err(
            ColorError::InvalidFormat,
        ),
        r matches Ok(o) ==> (o.0@ == border_updated(content@, hex_code@) && o.1 as nat
            == match_count(content@, border_pat())),
{
    if !hex_is_valid(hex_code) {
        return Err(ColorError::InvalidFormat);
    }
    let tv = chars_of(content);
    let pat = border_pattern();
    let mut vals: Vec<Vec<char>> = Vec::new();
    vals.push(chars_of(hex_code));
    proof {
        assert(vals_view(vals@) =~= seq![hex_code@]);
    }
    let r1 = substitute(&tv, &pat, &vals);
    Ok((string_of(&r1.0), r1.1))
}

/// Updates the numeric opacity property in one menu `.rc` text: the
/// captured value becomes the opacity as a truncated whole percentage.
/// Returns the new text and the anchor's match count.
pub fn apply_rc_opacity(content: &str, opacity: &str) -> (r: Result<(String, usize), ColorError>)
    requires
        content@.len() < usize::MAX,
    ensures
        r is Ok <==> valid_opacity(opacity@),
        !valid_opacity(opacity@) ==> r == Result::<(String, usize), ColorError>::Err(
            ColorError::OutOfRange,
        ),
        r matches Ok(o) ==> (o.0@ == rc_updated(content@, opacity@) && o.1 as nat == match_count(
            content@,
            rc_opacity_pat(),
        )),
{
    if !opacity_is_valid(opacity) {
        return Err(ColorError::OutOfRange);
    }
    let ov = chars_of(opacity);
    let pct = opacity_to_percent(&ov);
    let mut val: Vec<char> = Vec::new();
    append_dec(&mut val, pct as u64);
    proof {
        assert(val@ =~= dec_rep(opacity_percent(opacity@)));
    }
    let tv = chars_of(content);
    let pat = rc_opacity_pattern();
    let mut vals: Vec<Vec<char>> = Vec::new();
    vals.push(val);
    proof {
        assert(vals_view(vals@) =~= seq![dec_rep(opacity_percent(opacity@))]);
    }
    let r1 = substitute(&tv, &pat, &vals);
    Ok((string_of(&r1.0), r1.1))
}

/// Updates a whole directory's worth of menu files: every file whose
/// name has the `whiskermenu-<digits>.rc` form gets the numeric opacity
/// substitution; every other file comes back untouched, name and
/// content alike.
pub fn apply_rc_batch(files: &Vec<RcFile>, opacity: &str) -> (r: Result<Vec<RcFile>, ColorError>)
    requires
        forall|i: int|
            0 <= i < files@.len() ==> (#[trigger] files@[i]).content@.len() < usize::MAX,
    ensures
        r is Ok <==> valid_opacity(opacity@),
        !valid_opacity(opacity@) ==> r == Result::<Vec<RcFile>, ColorError>::Err(
            ColorError::OutOfRange,
        ),
        r matches Ok(out) ==> (out@.len() == files@.len() && (forall|i: int|
            0 <= i < files@.len() ==> (#[trigger] out@[i]).name@ == files@[i].name@) && (forall|
            i: int,
        |
            0 <= i < files@.len() && !is_menu_rc(files@[i].name@) ==> (#[trigger] out@[i]).content@
                == files@[i].content@) && (forall|i: int|
            0 <= i < files@.len() && is_menu_rc(files@[i].name@) ==> (#[trigger] out@[i]).content@
                == rc_updated(files@[i].content@, opacity@))),
{
    if !opacity_is_valid(opacity) {
        return Err(ColorError::OutOfRange);
    }
    let mut out: Vec<RcFile> = Vec::new();
    let mut i: usize = 0;
    while i < files.len()
        invariant
            valid_opacity(opacity@),
            i <= files@.len(),
            out@.len() == i,
            forall|j: int|
                0 <= j < files@.len() ==> (#[trigger] files@[j]).content@.len() < usize::MAX,
            forall|j: int| 0 <= j < i ==> (#[trigger] out@[j]).name@ == files@[j].name@,
            forall|j: int|
                0 <= j < i && !is_menu_rc(files@[j].name@) ==> (#[trigger] out@[j]).content@
                    == files@[j].content@,
            forall|j: int|
                0 <= j < i && is_menu_rc(files@[j].name@) ==> (#[trigger] out@[j]).content@
                    == rc_updated(files@[j].content@, opacity@),
        decreases files@.len() - i,
    {
        let f = &files[i];
        if is_menu_rc_name(f.name.as_str()) {
            match apply_rc_opacity(f.content.as_str(), opacity) {
                Ok(o) => {
                    out.push(RcFile { name: f.name.clone(), content: o.0 });
                },
                Err(_) => {
                    proof {
                        assert(false);
                    }
                    return Err(ColorError::OutOfRange);
                },
            }
        } else {
            out.push(RcFile { name: f.name.clone(), content: f.content.clone() });
        }
        i += 1;
    }
    Ok(out)
}

} // verus!
