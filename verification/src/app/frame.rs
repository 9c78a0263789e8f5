//! The frame a client-side decorated window draws around its content.

use crate::theme::style::button::{Paint, Radius};
use crate::widget::header_bar::HeaderBar;
use vstd::prelude::*;

verus! {

/// A window drawn by its client: the header bar on top and the content below it, both
/// filling the window inside a one pixel border with the window's corner radius - the
/// border and corners the compositor would otherwise have drawn.
pub struct WindowFrame<Message, Element, Content> {
    /// The header bar, on top.
    pub header: HeaderBar<Message, Element>,
    /// What the window shows, below the header bar.
    pub content: Content,
    /// Space between the border and the header bar and content.
    pub padding: u16,
    /// Width of the border.
    pub border_width: u16,
    /// Colour of the border.
    pub border_color: Paint,
    /// Colour behind the header bar and content.
    pub background: Paint,
    /// The corner radii of the border and background.
    pub corner_radius: Radius,
}

/// Whether a frame holds `header` over `content` the way every framed window does: a
/// one pixel divider-coloured border around the background with the window's corners.
pub open spec fn standard_frame<Message, Element, Content>(
    f: WindowFrame<Message, Element, Content>,
    header: HeaderBar<Message, Element>,
    content: Content,
) -> bool {
    &&& f.header == header
    &&& f.content == content
    &&& f.padding == 1
    &&& f.border_width == 1
    &&& f.border_color == Paint::BackgroundDivider
    &&& f.background == Paint::BackgroundBase
    &&& f.corner_radius == Radius::Window
}

/// Frames `content` below `header`.
pub fn frame<Message, Element, Content>(header: HeaderBar<Message, Element>, content: Content) -> (r:
    WindowFrame<Message, Element, Content>)
    ensures
        standard_frame(r, header, content),
{
    WindowFrame {
        header,
        content,
        padding: 1,
        border_width: 1,
        border_color: Paint::BackgroundDivider,
        background: Paint::BackgroundBase,
        corner_radius: Radius::Window,
    }
}

/// Whether the window `id` is in the focus chain.
pub fn in_focus_chain(focus_chain: &Vec<u64>, id: u64) -> (r: bool)
    ensures
        r == focus_chain@.contains(id),
{
    let mut i: usize = 0;
    while i < focus_chain.len()
        invariant
            i <= focus_chain.len(),
            forall|j: int| 0 <= j < i ==> focus_chain@[j] != id,
        decreases focus_chain.len() - i,
    {
        if focus_chain[i] == id {
            proof {
                assert(focus_chain@[i as int] == id);
            }
            return true;
        }
        i = i + 1;
    }
    false
}

} // verus!
