//! A collection of tabs for developing a tabbed interface.
//!
//! The tabs are a segmented button over a model supplied by the application; this
//! module fixes the metrics a tab strip uses, after Windows: tabs 76 to 250 wide and
//! 44 high, with the theme's extra-small spacing on every side of a label. The label
//! of the active tab keeps the interface font's regular weight, since Explorer marks
//! the active tab by its fill rather than by a heavier label.

use crate::font::FontPreset;
use vstd::prelude::*;

verus! {

/// The style classes of a segmented button that the tab strip draws with.
#[derive(Clone, Copy, Debug, PartialEq, Eq, Structural)]
pub enum SegmentedButtonStyle {
    /// Tabs: the active tab is the one whose fill merges into the strip below it.
    TabBar,
}

/// The direction the tabs run in.
#[derive(Clone, Copy, Debug, PartialEq, Eq, Structural)]
pub enum TabOrientation {
    Horizontal,
    Vertical,
}

/// A tab strip over `model`, with the metrics its buttons are drawn with.
pub struct TabBar<'a, Model> {
    /// The tabs.
    pub model: &'a Model,
    /// The direction the tabs run in.
    pub orientation: TabOrientation,
    /// Narrowest a tab gets.
    pub minimum_button_width: u16,
    /// Widest a tab gets.
    pub maximum_button_width: u16,
    /// Height of a tab.
    pub button_height: u16,
    /// Padding around a tab's label: top, right, bottom, left.
    pub button_padding: [u16; 4],
    /// The font of the active tab's label.
    pub font_active: FontPreset,
    /// The style class the tabs are drawn with.
    pub style: SegmentedButtonStyle,
}

/// The metrics every tab strip uses, given the theme's extra-small spacing.
pub open spec fn tab_metrics<'a, Model>(t: TabBar<'a, Model>, space_xs: u16) -> bool {
    &&& t.minimum_button_width == 76
    &&& t.maximum_button_width == 250
    &&& t.button_height == 44
    &&& t.button_padding@ == seq![space_xs, space_xs, space_xs, space_xs]
    &&& t.font_active == FontPreset::Default
    &&& t.style == SegmentedButtonStyle::TabBar
}

/// Tabs running left to right over `model`, for a theme whose extra-small spacing is
/// `space_xs`.
pub fn horizontal<'a, Model>(model: &'a Model, space_xs: u16) -> (r: TabBar<'a, Model>)
    ensures
        r.model == model,
        r.orientation == TabOrientation::Horizontal,
        tab_metrics(r, space_xs),
{
    let r = TabBar {
        model,
        orientation: TabOrientation::Horizontal,
        minimum_button_width: 76,
        maximum_button_width: 250,
        button_height: 44,
        button_padding: [space_xs, space_xs, space_xs, space_xs],
        font_active: FontPreset::Default,
        style: SegmentedButtonStyle::TabBar,
    };
    proof {
        assert(r.button_padding@ =~= seq![space_xs, space_xs, space_xs, space_xs]);
    }
    r
}

/// Tabs running top to bottom over `model`, with the same metrics as the horizontal
/// strip.
pub fn vertical<'a, Model>(model: &'a Model, space_xs: u16) -> (r: TabBar<'a, Model>)
    ensures
        r.model == model,
        r.orientation == TabOrientation::Vertical,
        tab_metrics(r, space_xs),
{
    let r = TabBar {
        model,
        orientation: TabOrientation::Vertical,
        minimum_button_width: 76,
        maximum_button_width: 250,
        button_height: 44,
        button_padding: [space_xs, space_xs, space_xs, space_xs],
        font_active: FontPreset::Default,
        style: SegmentedButtonStyle::TabBar,
    };
    proof {
        assert(r.button_padding@ =~= seq![space_xs, space_xs, space_xs, space_xs]);
    }
    r
}

} // verus!
