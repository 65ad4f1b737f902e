//! Placement of the overlay on screen, and joining of file system paths.

use crate::text::{append_chars, append_str, chars_of, str_eq, string_from_chars};
use vstd::prelude::*;

verus! {

/// The screen edges that a layer surface is anchored to.  No edge at all
/// centres the surface.
#[derive(Debug, Clone, Copy, PartialEq, Eq, Structural)]
pub struct Anchor {
    pub top: bool,
    pub bottom: bool,
    pub left: bool,
    pub right: bool,
}

/// The anchor with the given edges.
pub open spec fn edges(top: bool, bottom: bool, left: bool, right: bool) -> Anchor {
    Anchor { top, bottom, left, right }
}

/// The anchor that a position name selects.  The names are `center`,
/// `topleft`, `topright`, `bottomleft`, `bottomright`, `top`, `bottom`, `left`
/// and `right`, each also in camel case (`TopLeft`); no name and any other
/// name centre the overlay.
pub open spec fn anchor_of(name: Option<Seq<char>>) -> Anchor {
    match name {
        None => edges(false, false, false, false),
        Some(s) => if s == "topleft"@ || s == "TopLeft"@ {
            edges(true, false, true, false)
        } else if s == "topright"@ || s == "TopRight"@ {
            edges(true, false, false, true)
        } else if s == "bottomleft"@ || s == "BottomLeft"@ {
            edges(false, true, true, false)
        } else if s == "bottomright"@ || s == "BottomRight"@ {
            edges(false, true, false, true)
        } else if s == "top"@ || s == "Top"@ {
            edges(true, false, false, false)
        } else if s == "bottom"@ || s == "Bottom"@ {
            edges(false, true, false, false)
        } else if s == "left"@ || s == "Left"@ {
            edges(false, false, true, false)
        } else if s == "right"@ || s == "Right"@ {
            edges(false, false, false, true)
        } else {
            edges(false, false, false, false)
        },
    }
}

proof fn lemma_top_edge(s: Seq<char>)
    ensures
        anchor_of(Some(s)).top <==> (s == "topleft"@ || s == "TopLeft"@ || s == "topright"@ || s == "TopRight"@ || s == "top"@ || s == "Top"@),
{
    reveal_strlit("topleft");
    reveal_strlit("TopLeft");
    reveal_strlit("topright");
    reveal_strlit("TopRight");
    reveal_strlit("bottomleft");
    reveal_strlit("BottomLeft");
    reveal_strlit("bottomright");
    reveal_strlit("BottomRight");
    reveal_strlit("top");
    reveal_strlit("Top");
    reveal_strlit("bottom");
    reveal_strlit("Bottom");
    reveal_strlit("left");
    reveal_strlit("Left");
    reveal_strlit("right");
    reveal_strlit("Right");
    assert(anchor_of(Some(s)).top ==> (s == "topleft"@ || s == "TopLeft"@ || s == "topright"@ || s == "TopRight"@ || s == "top"@ || s == "Top"@));
    assert((s == "topleft"@ || s == "TopLeft"@ || s == "topright"@ || s == "TopRight"@ || s == "top"@ || s == "Top"@) ==> anchor_of(Some(s)).top);
}

proof fn lemma_bottom_edge(s: Seq<char>)
    ensures
        anchor_of(Some(s)).bottom <==> (s == "bottomleft"@ || s == "BottomLeft"@ || s == "bottomright"@ || s == "BottomRight"@ || s == "bottom"@ || s == "Bottom"@),
{
    reveal_strlit("topleft");
    reveal_strlit("TopLeft");
    reveal_strlit("topright");
    reveal_strlit("TopRight");
    reveal_strlit("bottomleft");
    reveal_strlit("BottomLeft");
    reveal_strlit("bottomright");
    reveal_strlit("BottomRight");
    reveal_strlit("top");
    reveal_strlit("Top");
    reveal_strlit("bottom");
    reveal_strlit("Bottom");
    reveal_strlit("left");
    reveal_strlit("Left");
    reveal_strlit("right");
    reveal_strlit("Right");
    assert(anchor_of(Some(s)).bottom ==> (s == "bottomleft"@ || s == "BottomLeft"@ || s == "bottomright"@ || s == "BottomRight"@ || s == "bottom"@ || s == "Bottom"@));
    assert((s == "bottomleft"@ || s == "BottomLeft"@ || s == "bottomright"@ || s == "BottomRight"@ || s == "bottom"@ || s == "Bottom"@) ==> anchor_of(Some(s)).bottom);
}

proof fn lemma_left_edge(s: Seq<char>)
    ensures
        anchor_of(Some(s)).left <==> (s == "topleft"@ || s == "TopLeft"@ || s == "bottomleft"@ || s == "BottomLeft"@ || s == "left"@ || s == "Left"@),
{
    reveal_strlit("topleft");
    reveal_strlit("TopLeft");
    reveal_strlit("topright");
    reveal_strlit("TopRight");
    reveal_strlit("bottomleft");
    reveal_strlit("BottomLeft");
    reveal_strlit("bottomright");
    reveal_strlit("BottomRight");
    reveal_strlit("top");
    reveal_strlit("Top");
    reveal_strlit("bottom");
    reveal_strlit("Bottom");
    reveal_strlit("left");
    reveal_strlit("Left");
    reveal_strlit("right");
    reveal_strlit("Right");
    assert(anchor_of(Some(s)).left ==> (s == "topleft"@ || s == "TopLeft"@ || s == "bottomleft"@ || s == "BottomLeft"@ || s == "left"@ || s == "Left"@));
    assert((s == "topleft"@ || s == "TopLeft"@ || s == "bottomleft"@ || s == "BottomLeft"@ || s == "left"@ || s == "Left"@) ==> anchor_of(Some(s)).left);
}

proof fn lemma_right_edge(s: Seq<char>)
    ensures
        anchor_of(Some(s)).right <==> (s == "topright"@ || s == "TopRight"@ || s == "bottomright"@ || s == "BottomRight"@ || s == "right"@ || s == "Right"@),
{
    reveal_strlit("topleft");
    reveal_strlit("TopLeft");
    reveal_strlit("topright");
    reveal_strlit("TopRight");
    reveal_strlit("bottomleft");
    reveal_strlit("BottomLeft");
    reveal_strlit("bottomright");
    reveal_strlit("BottomRight");
    reveal_strlit("top");
    reveal_strlit("Top");
    reveal_strlit("bottom");
    reveal_strlit("Bottom");
    reveal_strlit("left");
    reveal_strlit("Left");
    reveal_strlit("right");
    reveal_strlit("Right");
    assert(anchor_of(Some(s)).right ==> (s == "topright"@ || s == "TopRight"@ || s == "bottomright"@ || s == "BottomRight"@ || s == "right"@ || s == "Right"@));
    assert((s == "topright"@ || s == "TopRight"@ || s == "bottomright"@ || s == "BottomRight"@ || s == "right"@ || s == "Right"@) ==> anchor_of(Some(s)).right);
}

/// Each position name pins exactly its own edges, in either spelling: the
/// overlay touches the top edge for `topleft`, `topright` and `top`, the bottom
/// edge for `bottomleft`, `bottomright` and `bottom`, the left edge for
/// `topleft`, `bottomleft` and `left`, and the right edge for `topright`,
/// `bottomright` and `right` (each also in camel case).  Every other name, and
/// no name, centres it.
pub proof fn lemma_position_names_pick_their_edges(s: Seq<char>)
    ensures
        anchor_of(Some(s)).top <==> (s == "topleft"@ || s == "TopLeft"@ || s == "topright"@
            || s == "TopRight"@ || s == "top"@ || s == "Top"@),
        anchor_of(Some(s)).bottom <==> (s == "bottomleft"@ || s == "BottomLeft"@ || s
            == "bottomright"@ || s == "BottomRight"@ || s == "bottom"@ || s == "Bottom"@),
        anchor_of(Some(s)).left <==> (s == "topleft"@ || s == "TopLeft"@ || s == "bottomleft"@
            || s == "BottomLeft"@ || s == "left"@ || s == "Left"@),
        anchor_of(Some(s)).right <==> (s == "topright"@ || s == "TopRight"@ || s
            == "bottomright"@ || s == "BottomRight"@ || s == "right"@ || s == "Right"@),
        anchor_of(None) == (Anchor { top: false, bottom: false, left: false, right: false }),
{
    lemma_top_edge(s);
    lemma_bottom_edge(s);
    lemma_left_edge(s);
    lemma_right_edge(s);
}

/// The anchor for the overlay position named `anchor_str` (see `anchor_of`).
pub fn to_anchor(anchor_str: Option<String>) -> (a: Anchor)
    ensures
        a == anchor_of(
            match anchor_str {
                Some(s) => Some(s@),
                None => None,
            },
        ),
{
    match anchor_str {
        None => Anchor { top: false, bottom: false, left: false, right: false },
        Some(s) => {
            let s = s.as_str();
            if str_eq(s, "topleft") || str_eq(s, "TopLeft") {
                Anchor { top: true, bottom: false, left: true, right: false }
            } else if str_eq(s, "topright") || str_eq(s, "TopRight") {
                Anchor { top: true, bottom: false, left: false, right: true }
            } else if str_eq(s, "bottomleft") || str_eq(s, "BottomLeft") {
                Anchor { top: false, bottom: true, left: true, right: false }
            } else if str_eq(s, "bottomright") || str_eq(s, "BottomRight") {
                Anchor { top: false, bottom: true, left: false, right: true }
            } else if str_eq(s, "top") || str_eq(s, "Top") {
                Anchor { top: true, bottom: false, left: false, right: false }
            } else if str_eq(s, "bottom") || str_eq(s, "Bottom") {
                Anchor { top: false, bottom: true, left: false, right: false }
            } else if str_eq(s, "left") || str_eq(s, "Left") {
                Anchor { top: false, bottom: false, left: true, right: false }
            } else if str_eq(s, "right") || str_eq(s, "Right") {
                Anchor { top: false, bottom: false, left: false, right: true }
            } else {
                Anchor { top: false, bottom: false, left: false, right: false }
            }
        },
    }
}

/// The path `rel` (a relative path) appended to `base`, with a `/` between
/// them unless `base` is empty or already ends with one (`Path::join`).
pub open spec fn path_join(base: Seq<char>, rel: Seq<char>) -> Seq<char> {
    if base.len() == 0 || base.last() == '/' {
        base + rel
    } else {
        base + "/"@ + rel
    }
}

/// Joins the relative path `rel` to `base` (see `path_join`).
pub fn join_path(base: &str, rel: &str) -> (p: String)
    ensures
        p@ == path_join(base@, rel@),
{
    let mut v = chars_of(base);
    if v.len() > 0 && v[v.len() - 1] != '/' {
        append_str(&mut v, "/");
    }
    let r = chars_of(rel);
    append_chars(&mut v, &r);
    string_from_chars(&v)
}

/// The size and position of the overlay that the configuration gives.
#[derive(Debug, Clone)]
pub struct Placement {
    pub width: u32,
    pub height: u32,
    pub anchor: String,
}

/// The placement as plain values.
pub struct PlacementView {
    pub width: u32,
    pub height: u32,
    pub anchor: Seq<char>,
}

impl View for Placement {
    type V = PlacementView;

    open spec fn view(&self) -> PlacementView {
        PlacementView { width: self.width, height: self.height, anchor: self.anchor@ }
    }
}

/// The configured placement with each value given on the command line taking
/// the place of the configured one.
pub fn merge_cli_opts_config(
    config: Placement,
    width: Option<u32>,
    height: Option<u32>,
    anchor: Option<String>,
) -> (r: Placement)
    ensures
        r.width == (match width {
            Some(w) => w,
            None => config.width,
        }),
        r.height == (match height {
            Some(h) => h,
            None => config.height,
        }),
        r.anchor@ == (match anchor {
            Some(a) => a@,
            None => config.anchor@,
        }),
{
    let mut config = config;
    if let Some(w) = width {
        config.width = w;
    }
    if let Some(h) = height {
        config.height = h;
    }
    if let Some(a) = anchor {
        config.anchor = a;
    }
    config
}

} // verus!
