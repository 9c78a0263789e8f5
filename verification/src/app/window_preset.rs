//! Standard shapes for the secondary windows an application opens.
//!
//! A preset answers the two questions every extra toplevel has to answer the same way:
//! what settings it opens with, and what frame it draws around its content.

use crate::app::frame::{frame, in_focus_chain, WindowFrame};
use crate::theme::style::button::{Paint, Radius};
use crate::widget::header_bar::{blank_header, header_bar, HeaderBar, HeaderBarView};
use iced_core::Size;
use vstd::prelude::*;

verus! {

/// A logical window size, which the window settings carry through.
#[verifier::external_type_specification]
#[verifier::external_body]
#[verifier::reject_recursive_types(T)]
pub struct ExSize<T>(iced_core::Size<T>);

/// The shape of a secondary application window.
///
/// Every preset uses client side decorations. Server side ones would hand the chrome to
/// the compositor, which decorates every window alike: it has no way to know a window
/// is not resizable.
#[derive(Clone, Copy, Debug, PartialEq)]
pub enum WindowPreset {
    /// A fixed size window that cannot be resized, for dialogs such as About or a
    /// properties sheet. Equal minimum and maximum sizes are also what the compositor
    /// reads as "this is a dialog", so the window floats.
    Dialog {
        /// Both the initial and the only size of the window.
        size: Size,
    },
    /// A resizable companion window, for panes an application splits off from its
    /// main window, such as a preview or a view options sheet.
    Utility {
        /// Size the window opens at.
        size: Size,
        /// Smallest size the user can shrink it to.
        min_size: Size,
    },
}

/// The settings a window opens with.
pub struct WindowSettings {
    /// Size the window opens at.
    pub size: Size,
    /// Smallest size it can be shrunk to, if bounded.
    pub min_size: Option<Size>,
    /// Largest size it can be grown to, if bounded.
    pub max_size: Option<Size>,
    /// The user can resize it.
    pub resizable: bool,
    /// Width of the band along the edges where a drag resizes the window.
    pub resize_border: u32,
    /// The platform draws a frame around it.
    pub decorations: bool,
    /// Its background can be see-through.
    pub transparent: bool,
    /// The application id the window carries, which picks its taskbar icon and
    /// desktop entry.
    pub application_id: String,
}

/// Messages a framed window's header bar emits.
///
/// The messages have to come from the application because the toolkit's own chrome
/// actions are wired to the main window: reusing them would drag or close the wrong
/// window.
pub struct Chrome<Message> {
    title: String,
    on_close: Message,
    on_drag: Message,
    on_maximize: Option<Message>,
}

impl<Message> Chrome<Message> {
    /// The title of the window.
    pub closed spec fn title_text(&self) -> Seq<char> {
        self.title@
    }

    /// Emitted by the close button.
    pub closed spec fn close_message(&self) -> Message {
        self.on_close
    }

    /// Emitted when the header is dragged.
    pub closed spec fn drag_message(&self) -> Message {
        self.on_drag
    }

    /// Emitted by the maximize button, if there is one.
    pub closed spec fn maximize_message(&self) -> Option<Message> {
        self.on_maximize
    }

    /// Chrome for a window titled `title`, closed by `on_close` and moved by `on_drag`.
    pub fn new(title: &str, on_close: Message, on_drag: Message) -> (r: Self)
        ensures
            r.title_text() == title@,
            r.close_message() == on_close,
            r.drag_message() == on_drag,
            r.maximize_message() is None,
    {
        Self { title: title.to_owned(), on_close, on_drag, on_maximize: None }
    }

    /// Adds a maximize button, which only a resizable preset draws.
    pub fn on_maximize(self, message: Message) -> (r: Self)
        ensures
            r.title_text() == self.title_text(),
            r.close_message() == self.close_message(),
            r.drag_message() == self.drag_message(),
            r.maximize_message() == Some(message),
    {
        Self { on_maximize: Some(message), ..self }
    }
}

impl WindowPreset {
    /// A fixed size dialog window.
    pub fn dialog(size: Size) -> (r: Self)
        ensures
            r == (WindowPreset::Dialog { size }),
    {
        Self::Dialog { size }
    }

    /// A resizable companion window.
    pub fn utility(size: Size, min_size: Size) -> (r: Self)
        ensures
            r == (WindowPreset::Utility { size, min_size }),
    {
        Self::Utility { size, min_size }
    }

    /// Whether the user can resize a window of this shape.
    pub fn is_resizable(&self) -> (r: bool)
        ensures
            r == (*self is Utility),
    {
        match self {
            Self::Utility { .. } => true,
            Self::Dialog { .. } => false,
        }
    }

    /// Settings to open this window with, for an application with `app_id`.
    ///
    /// A dialog opens at its size and can neither shrink nor grow; a utility window
    /// opens at its size and shrinks no further than its minimum. Only a resizable
    /// window keeps a resize border: the drag-resize handler decides from the missing
    /// decorations alone, so a non-resizable window would show resize cursors within
    /// any border wider than zero.
    pub fn settings(&self, app_id: &str) -> (r: WindowSettings)
        ensures
            match *self {
                WindowPreset::Dialog { size } => r.size == size && r.min_size == Some(size)
                    && r.max_size == Some(size) && !r.resizable && r.resize_border == 0,
                WindowPreset::Utility { size, min_size } => r.size == size && r.min_size == Some(
                    min_size,
                ) && r.max_size is None && r.resizable && r.resize_border == 8,
            },
            !r.decorations,
            r.transparent,
            r.application_id@ == app_id@,
    {
        let (size, min_size, max_size) = match *self {
            Self::Dialog { size } => (size, Some(size), Some(size)),
            Self::Utility { size, min_size } => (size, Some(min_size), None),
        };
        let resizable = self.is_resizable();
        WindowSettings {
            size,
            min_size,
            max_size,
            resizable,
            resize_border: if resizable {
                8
            } else {
                0
            },
            decorations: false,
            transparent: true,
            application_id: app_id.to_owned(),
        }
    }

    /// The header bar of the standard frame for this shape, for a window that is
    /// `focused` or not.
    ///
    /// A dialog gets a title and a close button. A utility window also gets maximize,
    /// and maximizes on a double click, if the chrome supplies a message for it.
    fn header<Message: Clone, Element>(&self, focused: bool, chrome: Chrome<Message>) -> (r:
        HeaderBar<Message, Element>)
        ensures
            r.parts() == (HeaderBarView::<Message, Element> {
                title: chrome.title_text(),
                on_close: Some(chrome.close_message()),
                on_drag: Some(chrome.drag_message()),
                on_maximize: r.parts().on_maximize,
                on_double_click: if *self is Utility {
                    chrome.maximize_message()
                } else {
                    None
                },
                focused,
                ..blank_header::<Message, Element>()
            }),
            match chrome.maximize_message() {
                Some(m) if *self is Utility => r.parts().on_maximize matches Some(c) && cloned(
                    m,
                    c,
                ),
                _ => r.parts().on_maximize is None,
            },
    {
        let Chrome { title, on_close, on_drag, on_maximize } = chrome;
        let mut header = header_bar().title(title.as_str()).focused(focused).on_close(
            on_close,
        ).on_drag(on_drag);
        if self.is_resizable() {
            if let Some(on_maximize) = on_maximize {
                header = header.on_maximize(on_maximize.clone()).on_double_click(on_maximize);
            }
        }
        header
    }

    /// Draws `content` inside the standard window frame for this shape: a header bar on
    /// top, and the same one pixel border and corner radius the main window draws.
    ///
    /// The window `window_id` is focused when the focus chain holds it. A dialog's bar
    /// gets a title and a close button; a utility window's also gets maximize, and
    /// maximizes on a double click, if the chrome supplies a message for it. No bar gets
    /// minimize.
    pub fn view<Message: Clone, Element>(
        &self,
        window_id: u64,
        focus_chain: &Vec<u64>,
        chrome: Chrome<Message>,
        content: Element,
    ) -> (r: WindowFrame<Message, Element, Element>)
        ensures
            r.content == content,
            r.padding == 1,
            r.border_width == 1,
            r.border_color == Paint::BackgroundDivider,
            r.background == Paint::BackgroundBase,
            r.corner_radius == Radius::Window,
            r.header.parts() == (HeaderBarView::<Message, Element> {
                title: chrome.title_text(),
                on_close: Some(chrome.close_message()),
                on_drag: Some(chrome.drag_message()),
                on_maximize: r.header.parts().on_maximize,
                on_double_click: if *self is Utility {
                    chrome.maximize_message()
                } else {
                    None
                },
                focused: focus_chain@.contains(window_id),
                ..blank_header::<Message, Element>()
            }),
            match chrome.maximize_message() {
                Some(m) if *self is Utility => r.header.parts().on_maximize matches Some(c)
                    && cloned(m, c),
                _ => r.header.parts().on_maximize is None,
            },
    {
        let focused = in_focus_chain(focus_chain, window_id);
        let header = self.header(focused, chrome);
        frame(header, content)
    }
}

} // verus!
