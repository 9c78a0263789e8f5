//! The standard About window, built and owned by the framework.

use crate::app::frame::{frame, in_focus_chain, standard_frame, WindowFrame};
use crate::widget::header_bar::{blank_header, header_bar, HeaderBar, HeaderBarView};
use std::collections::HashMap;
use vstd::prelude::*;

verus! {

/// The title of the About window, as a message for the localizer to render.
#[derive(Clone, Debug, PartialEq, Eq)]
pub enum AboutTitle {
    /// "About", for an application without a name.
    About,
    /// "About <name>".
    AboutApp(String),
}

/// Title of the About window of an application named `name`, if it has one.
///
/// Must be applied before the window opens: the title is read once, when the window is
/// created.
pub fn title(name: Option<&str>) -> (r: AboutTitle)
    ensures
        match name {
            Some(n) => r matches AboutTitle::AboutApp(t) && t@ == n@,
            None => r == AboutTitle::About,
        },
{
    match name {
        Some(n) => AboutTitle::AboutApp(n.to_owned()),
        None => AboutTitle::About,
    }
}

/// The header bar of the About window: its title (none before the window has one),
/// focus, a close button and dragging. Deliberately no maximize, no minimize and no
/// double click to maximize: the window has one fixed size.
pub fn header<Message, Element>(
    window_title: Option<&str>,
    focused: bool,
    on_close: Message,
    on_drag: Message,
) -> (r: HeaderBar<Message, Element>)
    ensures
        r.parts() == (HeaderBarView::<Message, Element> {
            title: match window_title {
                Some(t) => t@,
                None => Seq::empty(),
            },
            focused,
            on_close: Some(on_close),
            on_drag: Some(on_drag),
            ..blank_header::<Message, Element>()
        }),
{
    let bar = match window_title {
        Some(t) => header_bar().title(t),
        None => header_bar(),
    };
    bar.focused(focused).on_close(on_close).on_drag(on_drag)
}

/// Widest the About page may get, matching the context drawer's cap.
pub const CONTENT_MAX_WIDTH: u16 = 480;

/// The About page as the window lays it out: padded, no wider than
/// [`CONTENT_MAX_WIDTH`], centred across the window and scrolled when it runs taller.
pub struct AboutContent<Element> {
    /// The page itself.
    pub page: Element,
    /// Padding around the page: top, right, bottom, left.
    pub padding: [u16; 4],
    /// Widest the padded page gets.
    pub max_width: u16,
}

/// The title the About window carries: the title of its window, or nothing when the
/// window has no id yet or no title.
pub open spec fn about_window_title(window_id: Option<u64>, titles: Map<u64, String>) -> Seq<char> {
    match window_id {
        Some(id) => if titles.contains_key(id) {
            titles[id]@
        } else {
            Seq::empty()
        },
        None => Seq::empty(),
    }
}

/// The About window: `None` when the application has no About page, for an empty
/// window; otherwise the page framed below a header bar.
///
/// `about_page` is the application's About page, if it has one; `window_id` the About
/// window's id, if it is open; `titles` the titles of the application's windows by id;
/// `focus_chain` the focused windows; `space_m` and `space_l` the theme's medium and
/// large spacing. The header bar has the window's title, is focused when the focus chain
/// holds the window, closes and drags the window, and has no maximize, minimize or
/// double click: the window has one fixed size.
pub fn view<Message, Element>(
    about_page: Option<Element>,
    window_id: Option<u64>,
    titles: &HashMap<u64, String>,
    focus_chain: &Vec<u64>,
    on_close: Message,
    on_drag: Message,
    space_m: u16,
    space_l: u16,
) -> (r: Option<WindowFrame<Message, Element, AboutContent<Element>>>)
    ensures
        match about_page {
            None => r is None,
            Some(page) => r matches Some(f) && f.content == (AboutContent {
                page,
                padding: [space_m, space_l, space_l, space_l],
                max_width: CONTENT_MAX_WIDTH,
            }) && standard_frame(f, f.header, f.content) && f.header.parts() == (HeaderBarView::<
                Message,
                Element,
            > {
                title: about_window_title(window_id, titles@),
                focused: window_id matches Some(id) && focus_chain@.contains(id),
                on_close: Some(on_close),
                on_drag: Some(on_drag),
                ..blank_header::<Message, Element>()
            }),
        },
{
    broadcast use vstd::std_specs::hash::group_hash_axioms;

    let page = match about_page {
        Some(page) => page,
        None => return None,
    };
    let (title, focused) = match window_id {
        Some(id) => (titles.get(&id), in_focus_chain(focus_chain, id)),
        None => (None, false),
    };
    let bar = header(
        match title {
            Some(t) => Some(t.as_str()),
            None => None,
        },
        focused,
        on_close,
        on_drag,
    );
    let content = AboutContent {
        page,
        padding: [space_m, space_l, space_l, space_l],
        max_width: CONTENT_MAX_WIDTH,
    };
    Some(frame(bar, content))
}

} // verus!
