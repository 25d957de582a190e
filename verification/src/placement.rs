//! Where the watermark sits: which screen edges a corner anchors to, and the
//! margins that the layer surface is given.

use vstd::prelude::*;

verus! {

/// Extra transparent pixels drawn around the text on each side, so that
/// glyph antialiasing is never clipped at the buffer border.
pub const RASTER_PADDING: i32 = 4;

/// The corner of the output in which the watermark is placed.
#[derive(Clone, Copy, Debug, PartialEq, Eq, Structural)]
pub enum Corner {
    TopLeft,
    TopRight,
    BottomLeft,
    BottomRight,
}

/// A distance for each edge of the output, in logical pixels.
#[derive(Clone, Copy, Debug, PartialEq, Eq, Structural)]
pub struct Margins {
    pub top: i32,
    pub right: i32,
    pub bottom: i32,
    pub left: i32,
}

/// The set of output edges a layer surface is anchored to.
#[derive(Clone, Copy, Debug, PartialEq, Eq, Structural)]
pub struct Edges {
    pub top: bool,
    pub right: bool,
    pub bottom: bool,
    pub left: bool,
}

/// The edges that the layer surface of a watermark in `corner` is anchored to.
pub open spec fn corner_edges(corner: Corner) -> Edges {
    Edges {
        top: corner == Corner::TopLeft || corner == Corner::TopRight,
        right: corner == Corner::TopRight || corner == Corner::BottomRight,
        bottom: corner == Corner::BottomLeft || corner == Corner::BottomRight,
        left: corner == Corner::TopLeft || corner == Corner::BottomLeft,
    }
}

/// Keeps the margin of each anchored edge and sets the other ones to zero:
/// a margin only has an effect on an edge the surface is anchored to.
pub open spec fn anchored_margins(edges: Edges, margins: Margins) -> Margins {
    Margins {
        top: if edges.top { margins.top } else { 0 },
        right: if edges.right { margins.right } else { 0 },
        bottom: if edges.bottom { margins.bottom } else { 0 },
        left: if edges.left { margins.left } else { 0 },
    }
}

/// The margin handed to the compositor for a requested visual margin: the
/// raster padding around the text is taken back out of it.
pub open spec fn spec_visual_margin(margin: i32) -> int {
    margin - RASTER_PADDING
}

/// Whether every edge margin of `margins` can lose the raster padding
/// without leaving the range of `i32`.
pub open spec fn margins_fit_padding(margins: Margins) -> bool {
    &&& margins.top >= i32::MIN + RASTER_PADDING
    &&& margins.right >= i32::MIN + RASTER_PADDING
    &&& margins.bottom >= i32::MIN + RASTER_PADDING
    &&& margins.left >= i32::MIN + RASTER_PADDING
}

impl Corner {
    /// The edges of the output that the watermark's layer surface is
    /// anchored to: the vertical and the horizontal edge of the corner.
    pub fn anchor(self) -> (edges: Edges)
        ensures
            edges == corner_edges(self),
    {
        match self {
            Corner::TopLeft => Edges { top: true, right: false, bottom: false, left: true },
            Corner::TopRight => Edges { top: true, right: true, bottom: false, left: false },
            Corner::BottomLeft => Edges { top: false, right: false, bottom: true, left: true },
            Corner::BottomRight => Edges { top: false, right: true, bottom: true, left: false },
        }
    }

    /// The margins of the layer surface for a watermark in this corner: the
    /// configured margins of the two anchored edges, zero on the other two.
    pub fn layer_margins(self, margins: &Margins) -> (result: Margins)
        ensures
            result == anchored_margins(corner_edges(self), *margins),
    {
        match self {
            Corner::TopLeft => Margins { top: margins.top, right: 0, bottom: 0, left: margins.left },
            Corner::TopRight => Margins {
                top: margins.top,
                right: margins.right,
                bottom: 0,
                left: 0,
            },
            Corner::BottomLeft => Margins {
                top: 0,
                right: 0,
                bottom: margins.bottom,
                left: margins.left,
            },
            Corner::BottomRight => Margins {
                top: 0,
                right: margins.right,
                bottom: margins.bottom,
                left: 0,
            },
        }
    }
}

/// The margin to request from the compositor so that the text itself, not
/// the padded buffer, sits `margin` pixels from the edge.
pub fn visual_margin(margin: i32) -> (result: i32)
    requires
        margin >= i32::MIN + RASTER_PADDING,
    ensures
        result == spec_visual_margin(margin),
{
    margin - RASTER_PADDING
}

/// The four margins set on the layer surface of a watermark in `corner`:
/// the anchored margins, each with the raster padding taken out.
pub fn layer_surface_margins(corner: Corner, margins: &Margins) -> (result: Margins)
    requires
        margins_fit_padding(anchored_margins(corner_edges(corner), *margins)),
    ensures
        result.top == spec_visual_margin(anchored_margins(corner_edges(corner), *margins).top),
        result.right == spec_visual_margin(anchored_margins(corner_edges(corner), *margins).right),
        result.bottom == spec_visual_margin(anchored_margins(corner_edges(corner), *margins).bottom),
        result.left == spec_visual_margin(anchored_margins(corner_edges(corner), *margins).left),
{
    let layer = corner.layer_margins(margins);
    Margins {
        top: visual_margin(layer.top),
        right: visual_margin(layer.right),
        bottom: visual_margin(layer.bottom),
        left: visual_margin(layer.left),
    }
}

/// Every corner anchors the surface to exactly one horizontal edge (top or
/// bottom) and exactly one vertical edge (left or right).
pub proof fn lemma_corner_anchors_two_edges(corner: Corner)
    ensures
        corner_edges(corner).top != corner_edges(corner).bottom,
        corner_edges(corner).left != corner_edges(corner).right,
{
}

/// Different corners anchor the surface to different edges.
pub proof fn lemma_corner_anchor_injective(a: Corner, b: Corner)
    requires
        corner_edges(a) == corner_edges(b),
    ensures
        a == b,
{
}

/// The layer margins of a corner are nonzero only on edges the corner
/// anchors to, and on those edges they are the configured margins.
pub proof fn lemma_layer_margins_follow_anchor(corner: Corner, margins: Margins)
    ensures
        ({
            let edges = corner_edges(corner);
            let layer = anchored_margins(edges, margins);
            &&& (edges.top ==> layer.top == margins.top) && (!edges.top ==> layer.top == 0)
            &&& (edges.right ==> layer.right == margins.right) && (!edges.right ==> layer.right
                == 0)
            &&& (edges.bottom ==> layer.bottom == margins.bottom) && (!edges.bottom
                ==> layer.bottom == 0)
            &&& (edges.left ==> layer.left == margins.left) && (!edges.left ==> layer.left == 0)
        }),
{
}

/// Adding the raster padding back to the requested layer margin gives the
/// distance from the edge to the text: the margin the user asked for.
pub proof fn lemma_visual_margin_restores_padding(margin: i32)
    requires
        margin >= i32::MIN + RASTER_PADDING,
    ensures
        spec_visual_margin(margin) + RASTER_PADDING == margin,
{
}

} // verus!
