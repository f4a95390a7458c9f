//! The catalog of structural anchors, and the menu file name filter.
//!
//! Each anchor fixes the skeleton of one block in a theme, panel or menu
//! configuration text, tolerant of whitespace between its tokens, and
//! marks the value spans to substitute. Matching is deterministic (see
//! the engine): within a rule block, the `color:` declaration found is
//! the first one opening a declaration, and each value runs to the next
//! terminator.

use vstd::prelude::*;

use crate::digits::{is_digit, is_digit_exec};
use crate::pattern::{toks_view, SpecTok, Tok};
use crate::text::chars_of;

verus! {

/// A skipped declaration: its name, then its value up to and including
/// the `';'`, then whitespace.
pub open spec fn skip_decl(name: Seq<char>) -> Seq<SpecTok> {
    seq![
        SpecTok::Lit(name),
        SpecTok::Ws,
        SpecTok::SkipUntil(';'),
        SpecTok::Lit(";"@),
        SpecTok::Ws,
    ]
}

/// One captured `<value .../>` element of the panel block, with the
/// whitespace after it.
pub open spec fn panel_value_entry() -> Seq<SpecTok> {
    seq![
        SpecTok::Lit("<value type=\"double\" value=\""@),
        SpecTok::CapUntil('"'),
        SpecTok::Lit("\"/>"@),
        SpecTok::Ws,
    ]
}

/// The base menu rule: a `.background` block whose `color:` declaration
/// is directly followed by `background-color:`, whose value is captured.
pub open spec fn base_menu_pat() -> Seq<SpecTok> {
    seq![
        SpecTok::Lit(".background"@),
        SpecTok::Ws,
        SpecTok::Lit("{"@),
        SpecTok::Ws,
        SpecTok::FindDecl("color:"@),
        SpecTok::Ws,
        SpecTok::SkipUntil(';'),
        SpecTok::Lit(";"@),
        SpecTok::Ws,
        SpecTok::Lit("background-color:"@),
        SpecTok::Ws,
        SpecTok::CapUntil(';'),
        SpecTok::Lit(";"@),
    ]
}

/// The menu opacity layer: the view/iconview/text selector list, then a
/// block whose `color:` declaration is directly followed by
/// `background-color:`, whose value is captured.
pub open spec fn menu_opacity_pat() -> Seq<SpecTok> {
    seq![
        SpecTok::Lit(".view,"@),
        SpecTok::Ws,
        SpecTok::Lit("iconview,"@),
        SpecTok::Ws,
        SpecTok::Lit(".view text,"@),
        SpecTok::Ws,
        SpecTok::Lit("iconview text,"@),
        SpecTok::Ws,
        SpecTok::Lit("textview text"@),
        SpecTok::Ws,
        SpecTok::Lit("{"@),
        SpecTok::Ws,
        SpecTok::FindDecl("color:"@),
        SpecTok::Ws,
        SpecTok::SkipUntil(';'),
        SpecTok::Lit(";"@),
        SpecTok::Ws,
        SpecTok::Lit("background-color:"@),
        SpecTok::Ws,
        SpecTok::CapUntil(';'),
        SpecTok::Lit(";"@),
    ]
}

/// The numeric opacity property of a menu `.rc` file: the key, then the
/// captured numeric value.
pub open spec fn rc_opacity_pat() -> Seq<SpecTok> {
    seq![SpecTok::Lit("menu-opacity="@), SpecTok::CapNum]
}

/// The focused search bar rule: `entry:focus` with `background-clip:`,
/// `color:` and `border-color:` declarations in order, then the captured
/// `background-color:` value.
pub open spec fn search_focus_pat() -> Seq<SpecTok> {
    seq![SpecTok::Lit("entry:focus"@), SpecTok::Ws, SpecTok::Lit("{"@), SpecTok::Ws] + skip_decl(
        "background-clip:"@,
    ) + skip_decl("color:"@) + skip_decl("border-color:"@) + seq![
        SpecTok::Lit("background-color:"@),
        SpecTok::Ws,
        SpecTok::CapUntil(';'),
        SpecTok::Lit(";"@),
    ]
}

/// The unfocused search bar rule: `entry` with border, padding,
/// caret-color, border-radius, transition, color and border-color
/// declarations in order, then the captured `background-color:` value.
pub open spec fn search_unfocused_pat() -> Seq<SpecTok> {
    seq![SpecTok::Lit("entry"@), SpecTok::Ws, SpecTok::Lit("{"@), SpecTok::Ws] + skip_decl(
        "border:"@,
    ) + skip_decl("padding:"@) + skip_decl("caret-color:"@) + skip_decl("border-radius:"@)
        + skip_decl("transition:"@) + skip_decl("color:"@) + skip_decl("border-color:"@) + seq![
        SpecTok::Lit("background-color:"@),
        SpecTok::Ws,
        SpecTok::CapUntil(';'),
        SpecTok::Lit(";"@),
    ]
}

/// The border rule: the same `entry` block as the unfocused search bar,
/// but capturing the `border-color:` value, with `background-color:` and
/// the closing brace required after it.
pub open spec fn border_pat() -> Seq<SpecTok> {
    seq![SpecTok::Lit("entry"@), SpecTok::Ws, SpecTok::Lit("{"@), SpecTok::Ws] + skip_decl(
        "border:"@,
    ) + skip_decl("padding:"@) + skip_decl("caret-color:"@) + skip_decl("border-radius:"@)
        + skip_decl("transition:"@) + skip_decl("color:"@) + seq![
        SpecTok::Lit("border-color:"@),
        SpecTok::Ws,
        SpecTok::CapUntil(';'),
        SpecTok::Lit(";"@),
        SpecTok::Ws,
        SpecTok::Lit("background-color:"@),
        SpecTok::Ws,
        SpecTok::SkipUntil(';'),
        SpecTok::Lit(";"@),
        SpecTok::Ws,
        SpecTok::Lit("}"@),
    ]
}

/// The panel background block: the `background-rgba` array property with
/// exactly four `<value .../>` elements, each value captured.
pub open spec fn panel_pat() -> Seq<SpecTok> {
    seq![SpecTok::Lit("<property name=\"background-rgba\" type=\"array\">"@), SpecTok::Ws]
        + panel_value_entry() + panel_value_entry() + panel_value_entry() + panel_value_entry()
        + seq![SpecTok::Lit("</property>"@)]
}

fn push_lit(p: &mut Vec<Tok>, s: &str)
    ensures
        toks_view(final(p)@) == toks_view(old(p)@).push(SpecTok::Lit(s@)),
{
    p.push(Tok::Lit(chars_of(s)));
    proof {
        assert(toks_view(p@) =~= toks_view(old(p)@).push(SpecTok::Lit(s@)));
    }
}

fn push_ws(p: &mut Vec<Tok>)
    ensures
        toks_view(final(p)@) == toks_view(old(p)@).push(SpecTok::Ws),
{
    p.push(Tok::Ws);
    proof {
        assert(toks_view(p@) =~= toks_view(old(p)@).push(SpecTok::Ws));
    }
}

fn push_find_decl(p: &mut Vec<Tok>, s: &str)
    ensures
        toks_view(final(p)@) == toks_view(old(p)@).push(SpecTok::FindDecl(s@)),
{
    p.push(Tok::FindDecl(chars_of(s)));
    proof {
        assert(toks_view(p@) =~= toks_view(old(p)@).push(SpecTok::FindDecl(s@)));
    }
}

fn push_skip_until(p: &mut Vec<Tok>, stop: char)
    ensures
        toks_view(final(p)@) == toks_view(old(p)@).push(SpecTok::SkipUntil(stop)),
{
    p.push(Tok::SkipUntil(stop));
    proof {
        assert(toks_view(p@) =~= toks_view(old(p)@).push(SpecTok::SkipUntil(stop)));
    }
}

fn push_cap_until(p: &mut Vec<Tok>, stop: char)
    ensures
        toks_view(final(p)@) == toks_view(old(p)@).push(SpecTok::CapUntil(stop)),
{
    p.push(Tok::CapUntil(stop));
    proof {
        assert(toks_view(p@) =~= toks_view(old(p)@).push(SpecTok::CapUntil(stop)));
    }
}

fn push_cap_num(p: &mut Vec<Tok>)
    ensures
        toks_view(final(p)@) == toks_view(old(p)@).push(SpecTok::CapNum),
{
    p.push(Tok::CapNum);
    proof {
        assert(toks_view(p@) =~= toks_view(old(p)@).push(SpecTok::CapNum));
    }
}

fn push_skip_decl(p: &mut Vec<Tok>, name: &str)
    ensures
        toks_view(final(p)@) == toks_view(old(p)@) + skip_decl(name@),
{
    push_lit(p, name);
    push_ws(p);
    push_skip_until(p, ';');
    push_lit(p, ";");
    push_ws(p);
    proof {
        assert(toks_view(p@) =~= toks_view(old(p)@) + skip_decl(name@));
    }
}

fn push_panel_value(p: &mut Vec<Tok>)
    ensures
        toks_view(final(p)@) == toks_view(old(p)@) + panel_value_entry(),
{
    push_lit(p, "<value type=\"double\" value=\"");
    push_cap_until(p, '"');
    push_lit(p, "\"/>");
    push_ws(p);
    proof {
        assert(toks_view(p@) =~= toks_view(old(p)@) + panel_value_entry());
    }
}

/// The base menu anchor, built for the engine.
pub fn base_menu_pattern() -> (p: Vec<Tok>)
    ensures
        toks_view(p@) == base_menu_pat(),
{
    let mut p: Vec<Tok> = Vec::new();
    push_lit(&mut p, ".background");
    push_ws(&mut p);
    push_lit(&mut p, "{");
    push_ws(&mut p);
    push_find_decl(&mut p, "color:");
    push_ws(&mut p);
    push_skip_until(&mut p, ';');
    push_lit(&mut p, ";");
    push_ws(&mut p);
    push_lit(&mut p, "background-color:");
    push_ws(&mut p);
    push_cap_until(&mut p, ';');
    push_lit(&mut p, ";");
    proof {
        assert(toks_view(p@) =~= base_menu_pat());
    }
    p
}

/// The menu opacity layer anchor, built for the engine.
pub fn menu_opacity_pattern() -> (p: Vec<Tok>)
    ensures
        toks_view(p@) == menu_opacity_pat(),
{
    let mut p: Vec<Tok> = Vec::new();
    push_lit(&mut p, ".view,");
    push_ws(&mut p);
    push_lit(&mut p, "iconview,");
    push_ws(&mut p);
    push_lit(&mut p, ".view text,");
    push_ws(&mut p);
    push_lit(&mut p, "iconview text,");
    push_ws(&mut p);
    push_lit(&mut p, "textview text");
    push_ws(&mut p);
    push_lit(&mut p, "{");
    push_ws(&mut p);
    push_find_decl(&mut p, "color:");
    push_ws(&mut p);
    push_skip_until(&mut p, ';');
    push_lit(&mut p, ";");
    push_ws(&mut p);
    push_lit(&mut p, "background-color:");
    push_ws(&mut p);
    push_cap_until(&mut p, ';');
    push_lit(&mut p, ";");
    proof {
        assert(toks_view(p@) =~= menu_opacity_pat());
    }
    p
}

/// The `.rc` numeric opacity anchor, built for the engine.
pub fn rc_opacity_pattern() -> (p: Vec<Tok>)
    ensures
        toks_view(p@) == rc_opacity_pat(),
{
    let mut p: Vec<Tok> = Vec::new();
    push_lit(&mut p, "menu-opacity=");
    push_cap_num(&mut p);
    proof {
        assert(toks_view(p@) =~= rc_opacity_pat());
    }
    p
}

/// The focused search bar anchor, built for the engine.
pub fn search_focus_pattern() -> (p: Vec<Tok>)
    ensures
        toks_view(p@) == search_focus_pat(),
{
    let mut p: Vec<Tok> = Vec::new();
    push_lit(&mut p, "entry:focus");
    push_ws(&mut p);
    push_lit(&mut p, "{");
    push_ws(&mut p);
    push_skip_decl(&mut p, "background-clip:");
    push_skip_decl(&mut p, "color:");
    push_skip_decl(&mut p, "border-color:");
    push_lit(&mut p, "background-color:");
    push_ws(&mut p);
    push_cap_until(&mut p, ';');
    push_lit(&mut p, ";");
    proof {
        assert(toks_view(p@) =~= search_focus_pat());
    }
    p
}

/// The unfocused search bar anchor, built for the engine.
pub fn search_unfocused_pattern() -> (p: Vec<Tok>)
    ensures
        toks_view(p@) == search_unfocused_pat(),
{
    let mut p: Vec<Tok> = Vec::new();
    push_lit(&mut p, "entry");
    push_ws(&mut p);
    push_lit(&mut p, "{");
    push_ws(&mut p);
    push_skip_decl(&mut p, "border:");
    push_skip_decl(&mut p, "padding:");
    push_skip_decl(&mut p, "caret-color:");
    push_skip_decl(&mut p, "border-radius:");
    push_skip_decl(&mut p, "transition:");
    push_skip_decl(&mut p, "color:");
    push_skip_decl(&mut p, "border-color:");
    push_lit(&mut p, "background-color:");
    push_ws(&mut p);
    push_cap_until(&mut p, ';');
    push_lit(&mut p, ";");
    proof {
        assert(toks_view(p@) =~= search_unfocused_pat());
    }
    p
}

/// The border color anchor, built for the engine.
pub fn border_pattern() -> (p: Vec<Tok>)
    ensures
        toks_view(p@) == border_pat(),
{
    let mut p: Vec<Tok> = Vec::new();
    push_lit(&mut p, "entry");
    push_ws(&mut p);
    push_lit(&mut p, "{");
    push_ws(&mut p);
    push_skip_decl(&mut p, "border:");
    push_skip_decl(&mut p, "padding:");
    push_skip_decl(&mut p, "caret-color:");
    push_skip_decl(&mut p, "border-radius:");
    push_skip_decl(&mut p, "transition:");
    push_skip_decl(&mut p, "color:");
    push_lit(&mut p, "border-color:");
    push_ws(&mut p);
    push_cap_until(&mut p, ';');
    push_lit(&mut p, ";");
    push_ws(&mut p);
    push_lit(&mut p, "background-color:");
    push_ws(&mut p);
    push_skip_until(&mut p, ';');
    push_lit(&mut p, ";");
    push_ws(&mut p);
    push_lit(&mut p, "}");
    proof {
        assert(toks_view(p@) =~= border_pat());
    }
    p
}

/// The panel background block anchor, built for the engine.
pub fn panel_pattern() -> (p: Vec<Tok>)
    ensures
        toks_view(p@) == panel_pat(),
{
    let mut p: Vec<Tok> = Vec::new();
    push_lit(&mut p, "<property name=\"background-rgba\" type=\"array\">");
    push_ws(&mut p);
    push_panel_value(&mut p);
    push_panel_value(&mut p);
    push_panel_value(&mut p);
    push_panel_value(&mut p);
    push_lit(&mut p, "</property>");
    proof {
        assert(toks_view(p@) =~= panel_pat());
    }
    p
}

/// The start of the run of digits that ends at `j`.
pub open spec fn digit_run_start(s: Seq<char>, j: int) -> int
    decreases j,
{
    if j > 0 && j <= s.len() && is_digit(s[j - 1]) {
        digit_run_start(s, j - 1)
    } else {
        j
    }
}

/// A menu configuration file name: anything ending in `whiskermenu-`,
/// one or more digits, and `.rc`.
pub open spec fn is_menu_rc(s: Seq<char>) -> bool {
    let d = digit_run_start(s, s.len() - 3);
    &&& s.len() >= 16
    &&& s.subrange(s.len() - 3, s.len() as int) == ".rc"@
    &&& d < s.len() - 3
    &&& d >= 12
    &&& s.subrange(d - 12, d) == "whiskermenu-"@
}

/// Whether `name` is a menu configuration file name,
/// `…whiskermenu-<digits>.rc`.
pub fn is_menu_rc_name(name: &str) -> (b: bool)
    ensures
        b == is_menu_rc(name@),
{
    let v = chars_of(name);
    let n = v.len();
    if n < 16 {
        return false;
    }
    proof {
        reveal_strlit(".rc");
        reveal_strlit("whiskermenu-");
    }
    if v[n - 3] != '.' || v[n - 2] != 'r' || v[n - 1] != 'c' {
        proof {
            if v@.subrange(n - 3, n as int) == ".rc"@ {
                assert(v@.subrange(n - 3, n as int)[0] == v@[n - 3]);
                assert(v@.subrange(n - 3, n as int)[1] == v@[n - 2]);
                assert(v@.subrange(n - 3, n as int)[2] == v@[n - 1]);
            }
        }
        return false;
    }
    proof {
        assert(v@.subrange(n - 3, n as int) =~= ".rc"@);
    }
    let mut d: usize = n - 3;
    while d > 0 && is_digit_exec(v[d - 1])
        invariant
            d <= v@.len() - 3,
            digit_run_start(v@, v@.len() - 3) == digit_run_start(v@, d as int),
        decreases d,
    {
        d -= 1;
    }
    proof {
        assert(digit_run_start(v@, d as int) == d);
    }
    if d == n - 3 {
        return false;
    }
    if d < 12 {
        return false;
    }
    let w = chars_of("whiskermenu-");
    let mut q: usize = 0;
    while q < w.len()
        invariant
            v@ == name@,
            w@ == "whiskermenu-"@,
            w@.len() == 12,
            12 <= d <= v@.len(),
            d as int == digit_run_start(v@, v@.len() - 3),
            q <= 12,
            forall|m: int| 0 <= m < q ==> v@[d - 12 + m] == w@[m],
        decreases w@.len() - q,
    {
        if v[d - 12 + q] != w[q] {
            proof {
                reveal_strlit("whiskermenu-");
                if v@.subrange(d as int - 12, d as int) == "whiskermenu-"@ {
                    assert(v@.subrange(d as int - 12, d as int)[q as int] == v@[d - 12 + q]);
                }
            }
            return false;
        }
        q += 1;
    }
    proof {
        assert(v@.subrange(d as int - 12, d as int) =~= "whiskermenu-"@);
    }
    true
}

} // verus!
