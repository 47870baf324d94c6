//! Layout sizes that follow the theme's spacing scale, so the layout grows and
//! shrinks with the desktop's density setting.
use vstd::prelude::*;

verus! {

/// How many tiles a row of the library grid holds.
pub const GRID_COLUMNS: usize = 4;

/// The theme's spacing scale, from the smallest step to the largest.
#[derive(Clone, Copy, Debug, PartialEq, Eq, Structural)]
pub struct Spacing {
    pub space_none: u16,
    pub space_xxxs: u16,
    pub space_xxs: u16,
    pub space_xs: u16,
    pub space_s: u16,
    pub space_m: u16,
    pub space_l: u16,
    pub space_xl: u16,
    pub space_xxl: u16,
    pub space_xxxl: u16,
}

/// Horizontal padding inside the main content panel.
pub fn content_horizontal_padding(spacing: &Spacing) -> (r: u16)
    ensures
        r == spacing.space_m,
{
    spacing.space_m
}

/// Top padding of the scrollable grid, which keeps the focus ring on the first
/// row clear of the viewport's edge.
pub fn grid_top_padding(spacing: &Spacing) -> (r: u16)
    ensures
        r == spacing.space_xs,
{
    spacing.space_xs
}

/// Padding inside the details screen's action line backplate.
pub fn details_action_bar_padding(spacing: &Spacing) -> (r: u16)
    ensures
        r == spacing.space_s,
{
    spacing.space_s
}

/// Padding around the search field's leading icon.
pub fn search_icon_padding(spacing: &Spacing) -> (r: u16)
    ensures
        r == spacing.space_xxxs,
{
    spacing.space_xxxs
}

} // verus!
