//! The header bar across the top of a window: title, packed regions, and the
//! caption buttons that move, maximize and close it.
//!
//! [`HeaderBar`] is the builder an application fills in. [`HeaderBar::view`] decides
//! everything the drawn bar depends on - padding, height, the caption buttons and the
//! pointer actions - and hands back a [`HeaderBarLayout`] for the renderer to draw.

use crate::widget::text::{heading, preset_text, text_view, Text, Typography};
use vstd::prelude::*;

verus! {

/// How much room the interface gives its controls.
#[derive(Clone, Copy, Debug, PartialEq, Eq, Hash, Structural)]
pub enum Density {
    Compact,
    Spacious,
    Standard,
}

/// Width of one caption button, as in Windows.
pub const WINDOW_CONTROL_WIDTH: u16 = 46;

/// Height of a caption button, which is also the height of its hover fill.
pub const WINDOW_CONTROL_HEIGHT: u32 = 28;

/// Caption button glyphs are drawn inside a box this wide and high.
pub const WINDOW_CONTROL_ICON_SIZE: u16 = 16;

/// Padding left and right of a caption button's glyph, which centres it.
pub const WINDOW_CONTROL_SIDE_PADDING: u16 = (WINDOW_CONTROL_WIDTH - WINDOW_CONTROL_ICON_SIZE) / 2;

/// Height of the bar's content row, without padding.
pub const HEADER_CONTENT_HEIGHT: u32 = 32;

/// Icon of the minimize button.
pub open spec fn minimize_icon() -> Seq<char> {
    "wmde-window-minimize-symbolic"@
}

/// Icon of the maximize button of a window that is not maximized.
pub open spec fn maximize_icon() -> Seq<char> {
    "wmde-window-maximize-symbolic"@
}

/// Icon of the maximize button of a maximized window.
pub open spec fn restore_icon() -> Seq<char> {
    "wmde-window-restore-symbolic"@
}

/// Icon of the close button.
pub open spec fn close_icon() -> Seq<char> {
    "wmde-window-close-symbolic"@
}

/// A caption button in the top right corner of the bar.
pub struct WindowControl<Message> {
    /// Name of the glyph.
    pub icon: &'static str,
    /// The close button, which takes the red fill on hover and press.
    pub close: bool,
    /// The rightmost button of a window with rounded corners, whose fill follows the
    /// window's corner.
    pub round_corner: bool,
    /// The window is focused; an unfocused window dims the glyph.
    pub selected: bool,
    /// Height of the button.
    pub height: u32,
    /// Width of the button.
    pub width: u16,
    /// Width and height of the box the glyph is drawn in.
    pub icon_size: u16,
    /// Padding left and right of the glyph, which centres it in the button.
    pub side_padding: u16,
    /// Padding above and below the glyph: none, so the glyph centres in the height.
    pub vertical_padding: u16,
    /// Emitted when the button is pressed.
    pub on_press: Message,
}

/// Whether a caption button has the shape every caption button has: 46 wide with its
/// 16 pixel glyph centred, `height` high, and selected when the window is `focused`.
pub open spec fn caption_button_shape<Message>(
    c: WindowControl<Message>,
    focused: bool,
    height: u32,
) -> bool {
    &&& c.selected == focused
    &&& c.height == height
    &&& c.width == 46
    &&& c.icon_size == 16
    &&& c.side_padding == 15
    &&& c.vertical_padding == 0
}

/// What a caption button is, as a value: glyph, close flag, corner flag, message.
pub open spec fn control_view<Message>(c: WindowControl<Message>) -> (Seq<char>, bool, bool, Message) {
    (c.icon@, c.close, c.round_corner, c.on_press)
}

/// The caption buttons a bar shows, left to right, before corner rounding: minimize,
/// maximize (restore, when maximized) and close, each only if its message is set.
pub open spec fn control_buttons<Message>(
    on_minimize: Option<Message>,
    on_maximize: Option<Message>,
    on_close: Option<Message>,
    maximized: bool,
) -> Seq<(Seq<char>, bool, Message)> {
    (match on_minimize {
        Some(m) => seq![(minimize_icon(), false, m)],
        None => Seq::empty(),
    }) + (match on_maximize {
        Some(m) => seq![(if maximized { restore_icon() } else { maximize_icon() }, false, m)],
        None => Seq::empty(),
    }) + (match on_close {
        Some(m) => seq![(close_icon(), true, m)],
        None => Seq::empty(),
    })
}

/// A caption button before corner rounding, as a value.
pub open spec fn button_views<Message>(s: Seq<(&'static str, bool, Message)>) -> Seq<(Seq<char>, bool, Message)> {
    s.map_values(|c: (&'static str, bool, Message)| (c.0@, c.1, c.2))
}

/// The caption buttons with their corner flags: only the rightmost button touches the
/// window corner, and only a window with rounded corners rounds its fill.
pub open spec fn window_control_views<Message>(
    on_minimize: Option<Message>,
    on_maximize: Option<Message>,
    on_close: Option<Message>,
    maximized: bool,
    sharp_corners: bool,
) -> Seq<(Seq<char>, bool, bool, Message)> {
    let buttons = control_buttons(on_minimize, on_maximize, on_close, maximized);
    Seq::new(
        buttons.len(),
        |i: int|
            (buttons[i].0, buttons[i].1, !sharp_corners && i == buttons.len() - 1, buttons[i].2),
    )
}

/// The padding of the bar, top, right, bottom, left.
///
/// A server-side decorated bar keeps the compositor's fixed padding. Otherwise a theme
/// padding other than all zeros replaces the toolkit's, which depends on the density
/// and on whether the window is maximized.
pub open spec fn header_padding(
    is_ssd: bool,
    density: Density,
    maximized: bool,
    theme_padding: Seq<u16>,
) -> Seq<u16> {
    if is_ssd {
        seq![2u16, 8, 2, 8]
    } else if theme_padding != seq![0u16, 0, 0, 0] {
        theme_padding
    } else {
        match (density, maximized) {
            (Density::Compact, true) => seq![4u16, 8, 4, 8],
            (Density::Compact, false) => seq![3u16, 7, 4, 7],
            (_, true) => seq![8u16, 8, 8, 8],
            (_, false) => seq![7u16, 7, 8, 7],
        }
    }
}

/// What fills the middle of the bar.
pub enum HeaderCenter<Element> {
    /// The elements packed in the center, in a row.
    Elements(Vec<Element>),
    /// The window title, set as a heading.
    Title {
        text: Text,
        /// The title wraps onto further lines; it does not.
        wraps: bool,
        /// Lines after which the title is cut short with an ellipsis at its end.
        ellipsized_after_lines: u16,
    },
    /// Nothing.
    Empty,
}

/// Everything a drawn header bar depends on.
pub struct HeaderBarLayout<Message, Element> {
    /// Elements packed at the start, in a row.
    pub start: Vec<Element>,
    /// Space between the elements of the start row.
    pub start_spacing: u16,
    /// Space between the elements of the center row, when the center is one.
    pub center_spacing: u16,
    /// Space between the elements of the end row.
    pub end_spacing: u16,
    /// Space between the caption buttons: none, they are packed edge to edge in a row
    /// that centres them vertically.
    pub controls_spacing: u16,
    /// What fills the middle.
    pub center: HeaderCenter<Element>,
    /// Elements packed at the end, in a row.
    pub end: Vec<Element>,
    /// The caption buttons, flush in the top right corner.
    pub controls: Vec<WindowControl<Message>>,
    /// Padding around everything but the caption buttons: top, right, bottom, left.
    pub padding: [u16; 4],
    /// Height of the bar.
    pub height: u32,
    /// The window is focused.
    pub focused: bool,
    /// The window's corners are sharp.
    pub sharp_corners: bool,
    /// The bar's background is see-through.
    pub transparent: bool,
    /// Emitted when the bar is dragged.
    pub on_drag: Option<Message>,
    /// Emitted when a press on the bar is released.
    pub on_release: Option<Message>,
    /// Emitted when the bar is double clicked.
    pub on_double_press: Option<Message>,
    /// Emitted when the bar is right clicked.
    pub on_right_press: Option<Message>,
}

/// The settings of a header bar, as values.
pub struct HeaderBarView<Message, Element> {
    pub title: Seq<char>,
    pub on_close: Option<Message>,
    pub on_drag: Option<Message>,
    pub on_maximize: Option<Message>,
    pub on_minimize: Option<Message>,
    pub on_double_click: Option<Message>,
    pub on_right_click: Option<Message>,
    pub start: Seq<Element>,
    pub center: Seq<Element>,
    pub end: Seq<Element>,
    pub density: Option<Density>,
    pub focused: bool,
    pub maximized: bool,
    pub sharp_corners: bool,
    pub is_ssd: bool,
}

/// A window's header bar, as an application fills it in.
pub struct HeaderBar<Message, Element> {
    title: String,
    on_close: Option<Message>,
    on_drag: Option<Message>,
    on_maximize: Option<Message>,
    on_minimize: Option<Message>,
    on_double_click: Option<Message>,
    on_right_click: Option<Message>,
    start: Vec<Element>,
    center: Vec<Element>,
    end: Vec<Element>,
    density: Option<Density>,
    focused: bool,
    maximized: bool,
    sharp_corners: bool,
    is_ssd: bool,
}

impl<Message, Element> HeaderBar<Message, Element> {
    /// The settings of this bar, as values.
    pub closed spec fn parts(&self) -> HeaderBarView<Message, Element> {
        HeaderBarView {
            title: self.title@,
            on_close: self.on_close,
            on_drag: self.on_drag,
            on_maximize: self.on_maximize,
            on_minimize: self.on_minimize,
            on_double_click: self.on_double_click,
            on_right_click: self.on_right_click,
            start: self.start@,
            center: self.center@,
            end: self.end@,
            density: self.density,
            focused: self.focused,
            maximized: self.maximized,
            sharp_corners: self.sharp_corners,
            is_ssd: self.is_ssd,
        }
    }
}

/// The settings of a header bar with no title, no messages, nothing packed, toolkit
/// density, and an unfocused, unmaximized, client-side decorated window with rounded
/// corners.
pub open spec fn blank_header<Message, Element>() -> HeaderBarView<Message, Element> {
    HeaderBarView::<Message, Element> {
            title: Seq::empty(),
            on_close: None,
            on_drag: None,
            on_maximize: None,
            on_minimize: None,
            on_double_click: None,
            on_right_click: None,
            start: Seq::empty(),
            center: Seq::empty(),
            end: Seq::empty(),
            density: None,
            focused: false,
            maximized: false,
            sharp_corners: false,
            is_ssd: false,
        }
}

/// A header bar with no title, no messages, nothing packed, toolkit density, and an
/// unfocused, unmaximized, client-side decorated window with rounded corners.
pub fn header_bar<Message, Element>() -> (r: HeaderBar<Message, Element>)
    ensures
        r.parts() == blank_header::<Message, Element>(),
{
    let r = HeaderBar {
        title: String::new(),
        on_close: None,
        on_drag: None,
        on_maximize: None,
        on_minimize: None,
        on_right_click: None,
        start: Vec::new(),
        center: Vec::new(),
        end: Vec::new(),
        density: None,
        focused: false,
        maximized: false,
        sharp_corners: false,
        is_ssd: false,
        on_double_click: None,
    };
    proof {
        assert(r.parts().start =~= Seq::<Element>::empty());
        assert(r.parts().center =~= Seq::<Element>::empty());
        assert(r.parts().end =~= Seq::<Element>::empty());
    }
    r
}

impl<Message, Element> HeaderBar<Message, Element> {
    /// Defines the title of the window.
    pub fn title(self, title: &str) -> (r: Self)
        ensures
            r.parts() == (HeaderBarView { title: title@, ..self.parts() }),
    {
        HeaderBar { title: title.to_owned(), ..self }
    }

    /// Pushes an element to the start region.
    pub fn start(self, widget: Element) -> (r: Self)
        ensures
            r.parts() == (HeaderBarView { start: self.parts().start.push(widget), ..self.parts() }),
    {
        let mut r = self;
        r.start.push(widget);
        r
    }

    /// Pushes an element to the center region.
    pub fn center(self, widget: Element) -> (r: Self)
        ensures
            r.parts() == (HeaderBarView { center: self.parts().center.push(widget), ..self.parts() }),
    {
        let mut r = self;
        r.center.push(widget);
        r
    }

    /// Pushes an element to the end region.
    pub fn end(self, widget: Element) -> (r: Self)
        ensures
            r.parts() == (HeaderBarView { end: self.parts().end.push(widget), ..self.parts() }),
    {
        let mut r = self;
        r.end.push(widget);
        r
    }

    /// A message emitted when the close button is pressed.
    pub fn on_close(self, message: Message) -> (r: Self)
        ensures
            r.parts() == (HeaderBarView { on_close: Some(message), ..self.parts() }),
    {
        HeaderBar { on_close: Some(message), ..self }
    }

    /// A message emitted when the bar is dragged.
    pub fn on_drag(self, message: Message) -> (r: Self)
        ensures
            r.parts() == (HeaderBarView { on_drag: Some(message), ..self.parts() }),
    {
        HeaderBar { on_drag: Some(message), ..self }
    }

    /// A message emitted when the maximize button is pressed.
    pub fn on_maximize(self, message: Message) -> (r: Self)
        ensures
            r.parts() == (HeaderBarView { on_maximize: Some(message), ..self.parts() }),
    {
        HeaderBar { on_maximize: Some(message), ..self }
    }

    /// A message emitted when the minimize button is pressed.
    pub fn on_minimize(self, message: Message) -> (r: Self)
        ensures
            r.parts() == (HeaderBarView { on_minimize: Some(message), ..self.parts() }),
    {
        HeaderBar { on_minimize: Some(message), ..self }
    }

    /// A message emitted when the bar is double clicked, usually to maximize the window.
    pub fn on_double_click(self, message: Message) -> (r: Self)
        ensures
            r.parts() == (HeaderBarView { on_double_click: Some(message), ..self.parts() }),
    {
        HeaderBar { on_double_click: Some(message), ..self }
    }

    /// A message emitted when the bar is right clicked.
    pub fn on_right_click(self, message: Message) -> (r: Self)
        ensures
            r.parts() == (HeaderBarView { on_right_click: Some(message), ..self.parts() }),
    {
        HeaderBar { on_right_click: Some(message), ..self }
    }

    /// Sets the density of the bar, overriding the toolkit's.
    pub fn density(self, density: Density) -> (r: Self)
        ensures
            r.parts() == (HeaderBarView { density: Some(density), ..self.parts() }),
    {
        HeaderBar { density: Some(density), ..self }
    }

    /// Sets whether the window is focused.
    pub fn focused(self, focused: bool) -> (r: Self)
        ensures
            r.parts() == (HeaderBarView { focused, ..self.parts() }),
    {
        HeaderBar { focused, ..self }
    }

    /// Sets whether the window is maximized.
    pub fn maximized(self, maximized: bool) -> (r: Self)
        ensures
            r.parts() == (HeaderBarView { maximized, ..self.parts() }),
    {
        HeaderBar { maximized, ..self }
    }

    /// Sets whether the corners of the window are sharp.
    pub fn sharp_corners(self, sharp_corners: bool) -> (r: Self)
        ensures
            r.parts() == (HeaderBarView { sharp_corners, ..self.parts() }),
    {
        HeaderBar { sharp_corners, ..self }
    }

    /// Sets whether the bar is drawn for server-side decorations.
    pub fn is_ssd(self, is_ssd: bool) -> (r: Self)
        ensures
            r.parts() == (HeaderBarView { is_ssd, ..self.parts() }),
    {
        HeaderBar { is_ssd, ..self }
    }

    /// The caption buttons, for a bar `height` high: minimize, maximize or restore,
    /// and close, each only if its message is set. Their messages move into the
    /// buttons.
    fn window_controls(&mut self, height: u32) -> (r: Vec<WindowControl<Message>>)
        ensures
            r@.map_values(|c: WindowControl<Message>| control_view(c)) == window_control_views(
                old(self).parts().on_minimize,
                old(self).parts().on_maximize,
                old(self).parts().on_close,
                old(self).parts().maximized,
                old(self).parts().sharp_corners,
            ),
            forall|i: int|
                0 <= i < r@.len() ==> caption_button_shape(
                    #[trigger] r@[i],
                    old(self).parts().focused,
                    if height < 28 {
                        height
                    } else {
                        28
                    },
                ),
            final(self).parts() == (HeaderBarView {
                on_minimize: None,
                on_maximize: None,
                on_close: None,
                ..old(self).parts()
            }),
    {
        // The glyph centres inside the button; the button itself never runs taller than
        // its hover fill.
        let height = if height < WINDOW_CONTROL_HEIGHT {
            height
        } else {
            WINDOW_CONTROL_HEIGHT
        };
        let ghost buttons = control_buttons(
            self.parts().on_minimize,
            self.parts().on_maximize,
            self.parts().on_close,
            self.parts().maximized,
        );
        let mut controls: Vec<(&'static str, bool, Message)> = Vec::new();
        if let Some(message) = self.on_minimize.take() {
            controls.push(("wmde-window-minimize-symbolic", false, message));
        }
        if let Some(message) = self.on_maximize.take() {
            let name = if self.maximized {
                "wmde-window-restore-symbolic"
            } else {
                "wmde-window-maximize-symbolic"
            };
            controls.push((name, false, message));
        }
        if let Some(message) = self.on_close.take() {
            controls.push(("wmde-window-close-symbolic", true, message));
        }
        proof {
            assert(button_views(controls@)
                =~= buttons);
        }
        // Only the rightmost button touches the window corner, and only a window with
        // rounded corners needs its fill rounded to match.
        let count = controls.len();
        let rounded = !self.sharp_corners;
        let focused = self.focused;
        let ghost views = window_control_views(
            old(self).parts().on_minimize,
            old(self).parts().on_maximize,
            old(self).parts().on_close,
            old(self).parts().maximized,
            old(self).parts().sharp_corners,
        );
        let mut result: Vec<WindowControl<Message>> = Vec::new();
        let mut rest = controls;
        let mut i: usize = 0;
        while i < count
            invariant
                count == buttons.len(),
                views.len() == count,
                rounded == !old(self).parts().sharp_corners,
                focused == old(self).parts().focused,
                views == window_control_views(
                    old(self).parts().on_minimize,
                    old(self).parts().on_maximize,
                    old(self).parts().on_close,
                    old(self).parts().maximized,
                    old(self).parts().sharp_corners,
                ),
                buttons == control_buttons(
                    old(self).parts().on_minimize,
                    old(self).parts().on_maximize,
                    old(self).parts().on_close,
                    old(self).parts().maximized,
                ),
                i <= count,
                button_views(rest@)
                    == buttons.skip(i as int),
                result@.len() == i,
                forall|k: int|
                    0 <= k < i ==> control_view(#[trigger] result@[k]) == views[k]
                        && caption_button_shape(result@[k], focused, height),
            decreases count - i,
        {
            let ghost before = rest@;
            proof {
                assert(button_views(before).len()
                    == before.len());
                assert(button_views(before)[0]
                    == buttons[i as int]);
            }
            let (name, close, message) = rest.remove(0);
            proof {
                assert forall|k: int| 0 <= k < rest@.len() implies #[trigger] button_views(rest@)[k] == buttons.skip(i + 1)[k] by {
                    assert(rest@[k] == before[k + 1]);
                    assert(button_views(before)[k + 1] == buttons.skip(i as int)[k + 1]);
                }
                assert(button_views(rest@)
                    =~= buttons.skip(i + 1));
            }
            result.push(
                WindowControl {
                    icon: name,
                    close,
                    round_corner: rounded && i + 1 == count,
                    selected: focused,
                    height,
                    width: WINDOW_CONTROL_WIDTH,
                    icon_size: WINDOW_CONTROL_ICON_SIZE,
                    side_padding: WINDOW_CONTROL_SIDE_PADDING,
                    vertical_padding: 0,
                    on_press: message,
                },
            );
            i = i + 1;
        }
        proof {
            assert(result@.map_values(|c: WindowControl<Message>| control_view(c)) =~= views);
        }
        result
    }

    /// Decides everything the drawn bar depends on.
    ///
    /// `toolkit_density` is the density the toolkit is configured with, used unless the
    /// bar sets its own; `theme_padding` is the header padding of the active theme, all
    /// zeros when the theme sets none; `space_xxxs` and `space_xxs` are the theme's two
    /// smallest spacings, which separate the elements of the start and center rows and
    /// of the end row. Every row centres its elements vertically.
    pub fn view(
        self,
        toolkit_density: Density,
        theme_padding: [u16; 4],
        space_xxxs: u16,
        space_xxs: u16,
    ) -> (r: HeaderBarLayout<
        Message,
        Element,
    >)
        ensures
            r.padding@ == header_padding(
                self.parts().is_ssd,
                match self.parts().density {
                    Some(d) => d,
                    None => toolkit_density,
                },
                self.parts().maximized,
                theme_padding@,
            ),
            r.height == 32 + r.padding[0] + r.padding[2],
            r.controls@.map_values(|c: WindowControl<Message>| control_view(c))
                == window_control_views(
                self.parts().on_minimize,
                self.parts().on_maximize,
                self.parts().on_close,
                self.parts().maximized,
                self.parts().sharp_corners,
            ),
            forall|i: int|
                0 <= i < r.controls@.len() ==> caption_button_shape(
                    #[trigger] r.controls@[i],
                    self.parts().focused,
                    28,
                ),
            r.start@ == self.parts().start,
            r.start_spacing == space_xxxs,
            r.center_spacing == space_xxxs,
            r.end_spacing == space_xxs,
            r.controls_spacing == 0,
            r.end@ == self.parts().end,
            match r.center {
                HeaderCenter::Elements(v) => self.parts().center.len() > 0 && v@ == self.parts().center,
                HeaderCenter::Title { text, wraps, ellipsized_after_lines } => self.parts().center.len() == 0
                    && self.parts().title.len() > 0 && text_view(text) == preset_text(
                    Typography::Heading,
                    self.parts().title,
                ) && !wraps && ellipsized_after_lines == 1,
                HeaderCenter::Empty => self.parts().center.len() == 0 && self.parts().title.len() == 0,
            },
            r.focused == self.parts().focused,
            r.sharp_corners == self.parts().sharp_corners,
            r.transparent == !self.parts().is_ssd,
            r.on_drag == self.parts().on_drag,
            r.on_release is None,
            r.on_double_press == self.parts().on_double_click,
            r.on_right_press == self.parts().on_right_click,
    {
        let mut bar = self;
        let is_ssd = bar.is_ssd;
        let padding: [u16; 4] = if is_ssd {
            [2, 8, 2, 8]
        } else {
            let density = match bar.density {
                Some(d) => d,
                None => toolkit_density,
            };
            match (density, bar.maximized) {
                (Density::Compact, true) => [4, 8, 4, 8],
                (Density::Compact, false) => [3, 7, 4, 7],
                (_, true) => [8, 8, 8, 8],
                (_, false) => [7, 7, 8, 7],
            }
        };
        // The active theme may override the header padding; all zeros means unset.
        // Server-side decorations are exempt: the compositor sizes that title bar to a
        // fixed height of its own.
        let unset = theme_padding[0] == 0 && theme_padding[1] == 0 && theme_padding[2] == 0
            && theme_padding[3] == 0;
        proof {
            assert(unset == (theme_padding@ == seq![0u16, 0, 0, 0])) by {
                if theme_padding@ == seq![0u16, 0, 0, 0] {
                    assert(theme_padding@[0] == 0u16);
                }
                if unset {
                    assert(theme_padding@ =~= seq![0u16, 0, 0, 0]);
                }
            }
        }
        let padding = if is_ssd || unset {
            padding
        } else {
            theme_padding
        };
        proof {
            assert(padding@ =~= header_padding(
                self.parts().is_ssd,
                match self.parts().density {
                    Some(d) => d,
                    None => toolkit_density,
                },
                self.parts().maximized,
                theme_padding@,
            ));
        }
        let height: u32 = HEADER_CONTENT_HEIGHT + padding[0] as u32 + padding[2] as u32;
        let controls = bar.window_controls(height);
        let HeaderBar {
            title,
            on_close: _,
            on_drag,
            on_maximize,
            on_minimize: _,
            on_double_click,
            on_right_click,
            start,
            center,
            end,
            density: _,
            focused,
            maximized: _,
            sharp_corners,
            is_ssd: _,
        } = bar;
        let center = if center.len() > 0 {
            HeaderCenter::Elements(center)
        } else if !title.as_str().is_empty() {
            HeaderCenter::Title {
                text: heading(title.as_str()),
                wraps: false,
                ellipsized_after_lines: 1,
            }
        } else {
            HeaderCenter::Empty
        };
        HeaderBarLayout {
            start,
            start_spacing: space_xxxs,
            center_spacing: space_xxxs,
            end_spacing: space_xxs,
            controls_spacing: 0,
            center,
            end,
            controls,
            padding,
            height,
            focused,
            sharp_corners,
            transparent: !is_ssd,
            on_drag,
            on_release: on_maximize,
            on_double_press: on_double_click,
            on_right_press: on_right_click,
        }
    }
}

/// The regions of a header bar as the widget that lays them out holds them.
pub struct HeaderBarWidget<Element> {
    start: Element,
    center: Option<Element>,
    end: Element,
    /// The caption buttons are a region of their own, so they can sit flush in the
    /// corner while everything else stays inside `padding`.
    controls: Element,
    /// Padding applied by the widget itself: top, right, bottom, left.
    padding: [u16; 4],
}

impl<Element> HeaderBarWidget<Element> {
    /// The start region.
    pub closed spec fn start_region(&self) -> Element {
        self.start
    }

    /// The center region, if there is one.
    pub closed spec fn center_region(&self) -> Option<Element> {
        self.center
    }

    /// The end region.
    pub closed spec fn end_region(&self) -> Element {
        self.end
    }

    /// The caption buttons.
    pub closed spec fn controls_region(&self) -> Element {
        self.controls
    }

    /// The padding: top, right, bottom, left.
    pub closed spec fn padding_values(&self) -> [u16; 4] {
        self.padding
    }

    /// Holds the regions of a header bar.
    pub fn new(
        start: Element,
        center: Option<Element>,
        end: Element,
        controls: Element,
        padding: [u16; 4],
    ) -> (r: Self)
        ensures
            r.start_region() == start,
            r.center_region() == center,
            r.end_region() == end,
            r.controls_region() == controls,
            r.padding_values() == padding,
    {
        Self { start, center, end, controls, padding }
    }

    /// The padding: top, right, bottom, left.
    pub fn padding(&self) -> (r: [u16; 4])
        ensures
            r == self.padding_values(),
    {
        self.padding
    }

    /// The regions, handed over in the order the widget lays out and walks them: start,
    /// end, the caption buttons, then the center if there is one.
    pub fn into_elems(self) -> (r: Vec<Element>)
        ensures
            r@ == match self.center_region() {
                Some(c) => seq![self.start_region(), self.end_region(), self.controls_region(), c],
                None => seq![self.start_region(), self.end_region(), self.controls_region()],
            },
    {
        let HeaderBarWidget { start, center, end, controls, padding: _ } = self;
        let mut r: Vec<Element> = Vec::new();
        r.push(start);
        r.push(end);
        r.push(controls);
        match center {
            Some(c) => r.push(c),
            None => {},
        }
        proof {
            match self.center_region() {
                Some(c) => assert(r@ =~= seq![self.start_region(), self.end_region(), self.controls_region(), c]),
                None => assert(r@ =~= seq![self.start_region(), self.end_region(), self.controls_region()]),
            }
        }
        r
    }

    /// The regions in the order the widget lays out and walks them: start, end, the
    /// caption buttons, then the center if there is one.
    pub fn elems(&self) -> (r: Vec<&Element>)
        ensures
            r@.len() == if self.center_region() is Some {
                4int
            } else {
                3int
            },
            *r@[0] == self.start_region(),
            *r@[1] == self.end_region(),
            *r@[2] == self.controls_region(),
            self.center_region() matches Some(c) ==> *r@[3] == c,
    {
        let mut r: Vec<&Element> = Vec::new();
        r.push(&self.start);
        r.push(&self.end);
        r.push(&self.controls);
        if let Some(center) = &self.center {
            r.push(center);
        }
        r
    }
}

/// The caption buttons a bar shows, for every choice of messages: one for each message
/// that is set, minimize first, then maximize (restore on a maximized window), then close.
/// Close is the only button with the close flag and always the last; the last button,
/// whichever it is, and no other, follows a rounded window corner.
pub proof fn lemma_caption_buttons<Message>(
    on_minimize: Option<Message>,
    on_maximize: Option<Message>,
    on_close: Option<Message>,
    maximized: bool,
    sharp_corners: bool,
)
    ensures
        ({
            let v = window_control_views(on_minimize, on_maximize, on_close, maximized, sharp_corners);
            let n = (if on_minimize is Some { 1int } else { 0int }) + (if on_maximize is Some {
                1int
            } else {
                0int
            }) + (if on_close is Some { 1int } else { 0int });
            &&& v.len() == n
            &&& forall|i: int| 0 <= i < v.len() ==> (#[trigger] v[i]).2 == (!sharp_corners && i == v.len() - 1)
            &&& forall|i: int| 0 <= i < v.len() && (#[trigger] v[i]).1 ==> i == v.len() - 1 && on_close is Some
            &&& (on_close matches Some(c) ==> v[v.len() - 1] == ("wmde-window-close-symbolic"@, true, !sharp_corners, c))
            &&& (on_minimize matches Some(m) ==> v[0].0 == "wmde-window-minimize-symbolic"@ && !v[0].1 && v[0].3 == m)
            &&& (on_maximize matches Some(m) ==> {
                let j = if on_minimize is Some { 1int } else { 0int };
                &&& v[j].0 == (if maximized {
                    "wmde-window-restore-symbolic"@
                } else {
                    "wmde-window-maximize-symbolic"@
                })
                &&& !v[j].1
                &&& v[j].3 == m
            })
        }),
{
    let b = control_buttons(on_minimize, on_maximize, on_close, maximized);
    let v = window_control_views(on_minimize, on_maximize, on_close, maximized, sharp_corners);
    let a = match on_minimize {
        Some(m) => seq![(minimize_icon(), false, m)],
        None => Seq::empty(),
    };
    let c = match on_maximize {
        Some(m) => seq![(if maximized { restore_icon() } else { maximize_icon() }, false, m)],
        None => Seq::empty(),
    };
    let d = match on_close {
        Some(m) => seq![(close_icon(), true, m)],
        None => Seq::empty(),
    };
    assert(b == a + c + d);
    assert forall|i: int| 0 <= i < b.len() && (#[trigger] b[i]).1 implies i == b.len() - 1 && on_close is Some by {
        if i < a.len() {
            assert(b[i] == (a + c)[i]);
            assert((a + c)[i] == a[i]);
        } else if i < a.len() + c.len() {
            assert(b[i] == (a + c)[i]);
            assert((a + c)[i] == c[i - a.len()]);
        } else {
            assert(b[i] == d[i - a.len() - c.len()]);
        }
    }
    if on_close is Some {
        assert(b[b.len() - 1] == d[0]);
    }
    if on_minimize is Some {
        assert(b[0] == (a + c)[0]);
        assert((a + c)[0] == a[0]);
    }
    if on_maximize is Some {
        let j = a.len() as int;
        assert(b[j] == (a + c)[j]);
        assert((a + c)[j] == c[0]);
    }
    assert forall|i: int| 0 <= i < v.len() && (#[trigger] v[i]).1 implies i == v.len() - 1 && on_close is Some by {
        assert(v[i].1 == b[i].1);
    }
}

/// The padding of a bar, top, right, bottom, left: a server-side decorated bar keeps
/// 2, 8, 2, 8 whatever the theme says; otherwise a theme padding other than all zeros is
/// used as it is; otherwise a compact bar takes 4, 8, 4, 8 maximized and 3, 7, 4, 7 not,
/// and any other 8 on every side maximized and 7, 7, 8, 7 not.
pub proof fn lemma_header_padding(is_ssd: bool, density: Density, maximized: bool, theme_padding: Seq<u16>)
    ensures
        ({
            let p = header_padding(is_ssd, density, maximized, theme_padding);
            &&& is_ssd ==> p == seq![2u16, 8, 2, 8]
            &&& !is_ssd && theme_padding != seq![0u16, 0, 0, 0] ==> p == theme_padding
            &&& !is_ssd && theme_padding == seq![0u16, 0, 0, 0] ==> p == if density is Compact {
                if maximized {
                    seq![4u16, 8, 4, 8]
                } else {
                    seq![3u16, 7, 4, 7]
                }
            } else {
                if maximized {
                    seq![8u16, 8, 8, 8]
                } else {
                    seq![7u16, 7, 8, 7]
                }
            }
        }),
{
}

} // verus!
