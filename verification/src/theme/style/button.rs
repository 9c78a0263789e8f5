//! The look of a button in each of its states, for every class of button.
//!
//! A theme's colours and radii are values of the running theme; what is decided here is
//! which of them a button takes, as a [`ButtonLook`]: a [`Paint`] names a theme colour
//! (or one of the few fixed ones), a [`Radius`] names a theme radius.

use vstd::prelude::*;

verus! {

/// The classes of button the toolkit draws.
#[derive(Clone, Copy, Debug, PartialEq, Eq, Hash, Structural)]
pub enum Button {
    AppletIcon,
    AppletMenu,
    /// A button styled by closures of the application's own, one per state.
    Custom,
    Destructive,
    HeaderBar,
    Icon,
    IconVertical,
    Image,
    Link,
    /// A list row, whose corners follow radii of its own.
    ListItem,
    MenuFolder,
    MenuItem,
    MenuRoot,
    NavToggle,
    Standard,
    Suggested,
    Text,
    Transparent,
    /// A Windows-style caption button in the header bar. Window focus is passed in
    /// through the button's `selected` flag, so an unfocused window dims its glyphs the
    /// way the title text already is.
    WindowControl {
        /// The close button takes the red fill on hover and press.
        close: bool,
        /// The rightmost button of a window with rounded corners: its top right corner
        /// follows the window radius so the fill does not poke out past the corner.
        round_corner: bool,
    },
}

impl Default for Button {
    /// The standard button.
    fn default() -> (r: Self)
        ensures
            r == Button::Standard,
    {
        Button::Standard
    }
}

/// A component of the theme: a set of colours for one kind of surface.
#[derive(Clone, Copy, Debug, PartialEq, Eq, Hash, Structural)]
pub enum Component {
    /// The standard button.
    Button,
    /// The text button.
    TextButton,
    /// The accent (suggested) button.
    AccentButton,
    /// The destructive button.
    DestructiveButton,
    /// The fully transparent component.
    Transparent,
    /// The icon button.
    IconButton,
    /// The list row button.
    ListButton,
    /// The component of the window background container.
    Background,
}

/// The fill of a component in a state of the pointer.
#[derive(Clone, Copy, Debug, PartialEq, Eq, Hash, Structural)]
pub enum Shade {
    Base,
    Hover,
    Pressed,
}

/// A colour a button is painted with.
#[derive(Clone, Copy, Debug, PartialEq, Eq, Hash, Structural)]
pub enum Paint {
    /// The fill of a component in a pointer state.
    Fill(Component, Shade),
    /// The resting fill of a component at half its opacity.
    HalfBase(Component),
    /// The text colour of a component.
    On(Component),
    /// The text colour of a disabled component.
    OnDisabled(Component),
    /// The border colour of a component.
    Border(Component),
    /// The accent colour.
    Accent,
    /// The accent colour for text.
    AccentText,
    /// The text colour of the window background.
    BackgroundOn,
    /// The fill of the window background.
    BackgroundBase,
    /// The divider colour of the window background, which frames a window.
    BackgroundDivider,
    /// The hover fill of the primary container's component.
    PrimaryHover,
    /// The fill of the primary container.
    PrimaryBase,
    /// The divider colour of the current container's component.
    ContainerDivider,
    /// The overlay of a selected icon button.
    SelectedState,
    /// No colour at all.
    Transparent,
    /// Plain white.
    White,
    /// The background component's text colour blended halfway into the background: the
    /// glyph of an unfocused window.
    DimmedGlyph,
    /// The red of a hovered close button, as in Windows 11.
    CloseFill,
    /// The red of a pressed close button, darker than on hover.
    CloseFillPressed,
    /// A translucent wash: white on dark themes and black on light ones, stronger when
    /// pressed than when hovered.
    Wash { white: bool, strong: bool },
}

/// The corner radii a button is drawn with.
#[derive(Clone, Copy, Debug, PartialEq, Eq, Hash, Structural)]
pub enum Radius {
    /// The theme's extra-large radius.
    Xl,
    /// The theme's medium radius.
    M,
    /// The theme's small radius.
    S,
    /// The theme's zero radius.
    Zero,
    /// The radii the list row carries.
    Item,
    /// Square on every corner but the top right, which is one pixel inside the window
    /// frame's corner if `round` and square otherwise.
    Caption { round: bool },
    /// Square corners, as a fresh style has them.
    Square,
    /// The corners of a window: the theme's small radius, with each radius of 4 or
    /// more grown by 4 so that content and window corners look concentric.
    Window,
}

/// Everything a drawn button takes from the theme.
#[derive(Clone, Copy, Debug, PartialEq, Eq, Structural)]
pub struct ButtonLook {
    pub background: Option<Paint>,
    pub overlay: Option<Paint>,
    pub border_radius: Radius,
    pub border_width: u8,
    pub border_color: Paint,
    pub outline_width: u8,
    pub outline_color: Paint,
    pub icon_color: Option<Paint>,
    pub text_color: Option<Paint>,
}

/// Which of its colours a component lends a button in a state.
#[derive(Clone, Copy, Debug, PartialEq, Eq, Hash, Structural)]
pub enum ButtonState {
    Active,
    Hovered,
    Pressed,
    Disabled,
}

/// What a theme decides about buttons beyond its colours.
#[derive(Clone, Copy, Debug, PartialEq, Eq, Structural)]
pub struct ButtonTheme {
    /// The theme is a high contrast one, which draws borders around standard buttons
    /// and images.
    pub high_contrast: bool,
    /// The theme is dark.
    pub dark: bool,
}

/// A fresh style: nothing painted, square corners, no border or outline.
pub open spec fn plain_look() -> ButtonLook {
    ButtonLook {
        background: None,
        overlay: None,
        border_radius: Radius::Square,
        border_width: 0,
        border_color: Paint::Transparent,
        outline_width: 0,
        outline_color: Paint::Transparent,
        icon_color: None,
        text_color: None,
    }
}

/// The icon-like classes, whose text turns to the accent colour when selected.
pub open spec fn icon_like(style: Button) -> bool {
    style is Icon || style is IconVertical || style is HeaderBar
}

/// The menu classes, which keep their full fill when disabled.
pub open spec fn menu_like(style: Button) -> bool {
    style is MenuFolder || style is MenuItem || style is MenuRoot
}

/// The background, text and icon colours component `c` lends a button of class
/// `style` in `state`: the fill of the state, and the component's text colour, or the
/// accent text colour for a selected icon-like button. A disabled button takes the
/// resting fill at half opacity (full, for a menu) and the disabled text colour.
pub open spec fn state_colors(
    style: Button,
    selected: bool,
    state: ButtonState,
    c: Component,
) -> (Paint, Option<Paint>, Option<Paint>) {
    let text = if icon_like(style) && selected {
        Paint::AccentText
    } else {
        Paint::On(c)
    };
    match state {
        ButtonState::Active => (Paint::Fill(c, Shade::Base), Some(text), Some(text)),
        ButtonState::Hovered => (Paint::Fill(c, Shade::Hover), Some(text), Some(text)),
        ButtonState::Pressed => (Paint::Fill(c, Shade::Pressed), Some(text), Some(text)),
        ButtonState::Disabled => (
            if menu_like(style) {
                Paint::Fill(c, Shade::Base)
            } else {
                Paint::HalfBase(c)
            },
            Some(Paint::OnDisabled(c)),
            Some(Paint::OnDisabled(c)),
        ),
    }
}

/// The look of a caption button: `fill` behind it, if any; a white glyph on a filled
/// close button, otherwise the background's text colour in a focused window and a
/// dimmed one in an unfocused window.
pub open spec fn caption_look(
    close: bool,
    round_corner: bool,
    window_focused: bool,
    fill: Option<Paint>,
) -> ButtonLook {
    let glyph = if fill is Some && close {
        Paint::White
    } else if window_focused {
        Paint::BackgroundOn
    } else {
        Paint::DimmedGlyph
    };
    ButtonLook {
        background: fill,
        border_radius: Radius::Caption { round: round_corner },
        icon_color: Some(glyph),
        text_color: Some(glyph),
        ..plain_look()
    }
}

/// A focused button gets an accent outline and a transparent border two wide.
pub open spec fn with_focus_ring(look: ButtonLook, focused: bool) -> ButtonLook {
    if focused {
        ButtonLook {
            outline_width: 1,
            outline_color: Paint::Accent,
            border_width: 2,
            border_color: Paint::Transparent,
            ..look
        }
    } else {
        look
    }
}

/// The component a plain button class is painted from.
pub open spec fn surface_component(style: Button) -> Component {
    match style {
        Button::Standard => Component::Button,
        Button::Text => Component::TextButton,
        Button::Suggested => Component::AccentButton,
        Button::Destructive => Component::DestructiveButton,
        _ => Component::Transparent,
    }
}

/// The look of a button of class `style`, with `state` choosing the colours its
/// component lends it.
pub open spec fn button_look(
    theme: ButtonTheme,
    focused: bool,
    selected: bool,
    disabled: bool,
    style: Button,
    state: ButtonState,
) -> ButtonLook {
    let colors = |c: Component| state_colors(style, selected, state, c);
    match style {
        Button::Standard | Button::Text | Button::Suggested | Button::Destructive
        | Button::Transparent => {
            let (background, text, icon) = colors(surface_component(style));
            let look = if !(style is Standard) {
                ButtonLook {
                    background: Some(background),
                    text_color: text,
                    icon_color: icon,
                    ..plain_look()
                }
            } else if theme.high_contrast {
                ButtonLook {
                    background: Some(background),
                    border_color: Paint::Border(Component::Button),
                    border_width: 1,
                    ..plain_look()
                }
            } else {
                ButtonLook { background: Some(background), ..plain_look() }
            };
            with_focus_ring(ButtonLook { border_radius: Radius::Xl, ..look }, focused)
        },
        Button::Icon | Button::IconVertical | Button::HeaderBar | Button::NavToggle => {
            let (background, text, icon) = colors(Component::IconButton);
            let radius = if style is IconVertical {
                Radius::M
            } else if style is NavToggle {
                Radius::S
            } else {
                Radius::Xl
            };
            with_focus_ring(
                ButtonLook {
                    background: Some(background),
                    overlay: if style is IconVertical && selected {
                        Some(Paint::SelectedState)
                    } else {
                        None
                    },
                    icon_color: if disabled {
                        icon
                    } else {
                        None
                    },
                    text_color: if disabled {
                        text
                    } else {
                        None
                    },
                    border_radius: radius,
                    ..plain_look()
                },
                focused,
            )
        },
        Button::Image => {
            let look = ButtonLook {
                text_color: Some(Paint::AccentText),
                icon_color: Some(Paint::Accent),
                border_radius: Radius::S,
                ..plain_look()
            };
            if focused || selected {
                ButtonLook { border_width: 2, border_color: Paint::Accent, ..look }
            } else if theme.high_contrast {
                ButtonLook { border_width: 1, border_color: Paint::ContainerDivider, ..look }
            } else {
                look
            }
        },
        Button::Link => with_focus_ring(
            ButtonLook {
                icon_color: Some(Paint::AccentText),
                text_color: Some(Paint::AccentText),
                border_radius: Radius::Zero,
                ..plain_look()
            },
            focused,
        ),
        Button::Custom => with_focus_ring(
            ButtonLook { border_radius: Radius::Xl, ..plain_look() },
            focused,
        ),
        Button::WindowControl { close, round_corner } => caption_look(
            close,
            round_corner,
            selected,
            None,
        ),
        Button::AppletMenu | Button::AppletIcon => with_focus_ring(
            ButtonLook {
                background: Some(colors(Component::TextButton).0),
                icon_color: Some(Paint::BackgroundOn),
                text_color: Some(Paint::BackgroundOn),
                border_radius: if style is AppletMenu {
                    Radius::Zero
                } else {
                    Radius::Xl
                },
                ..plain_look()
            },
            focused,
        ),
        Button::MenuFolder => with_focus_ring(
            ButtonLook {
                background: Some(colors(Component::Background).0),
                icon_color: Some(Paint::On(Component::Background)),
                text_color: Some(Paint::On(Component::Background)),
                border_radius: Radius::S,
                ..plain_look()
            },
            focused,
        ),
        Button::ListItem => {
            let (background, text, icon) = colors(Component::ListButton);
            with_focus_ring(
                if selected {
                    ButtonLook {
                        background: Some(Paint::PrimaryHover),
                        icon_color: Some(Paint::Accent),
                        text_color: Some(Paint::AccentText),
                        border_radius: Radius::Item,
                        ..plain_look()
                    }
                } else {
                    ButtonLook {
                        background: Some(background),
                        icon_color: icon,
                        text_color: text,
                        border_radius: Radius::Item,
                        ..plain_look()
                    }
                },
                focused,
            )
        },
        Button::MenuItem => {
            let (background, text, icon) = colors(Component::Background);
            with_focus_ring(
                ButtonLook {
                    background: Some(background),
                    icon_color: icon,
                    text_color: text,
                    border_radius: Radius::S,
                    ..plain_look()
                },
                focused,
            )
        },
        Button::MenuRoot => with_focus_ring(
            ButtonLook { border_radius: Radius::Xl, ..plain_look() },
            focused,
        ),
    }
}


/// The look a theme gives a button of class `style` in `state`: `None` for a custom
/// button, which its own closure for that state styles.
pub open spec fn class_look(
    theme: ButtonTheme,
    state: ButtonState,
    focused: bool,
    selected: bool,
    style: Button,
) -> Option<ButtonLook> {
    match style {
        Button::Custom => None,
        Button::WindowControl { close, round_corner } => Some(
            caption_look(
                close,
                round_corner,
                selected && !(state is Disabled),
                match state {
                    ButtonState::Hovered => Some(
                        if close {
                            Paint::CloseFill
                        } else {
                            Paint::Wash { white: theme.dark, strong: false }
                        },
                    ),
                    ButtonState::Pressed => Some(
                        if close {
                            Paint::CloseFillPressed
                        } else {
                            Paint::Wash { white: theme.dark, strong: true }
                        },
                    ),
                    _ => None,
                },
            ),
        ),
        _ => Some(
            match state {
                ButtonState::Disabled => button_look(theme, false, false, true, style, state),
                ButtonState::Hovered => button_look(
                    theme,
                    focused || style is Image,
                    selected,
                    false,
                    style,
                    state,
                ),
                _ => button_look(theme, focused, selected, false, style, state),
            },
        ),
    }
}

/// The colours component `c` lends a button of class `style` in `state`.
fn component_colors(style: Button, selected: bool, state: ButtonState, c: Component) -> (r: (
    Paint,
    Option<Paint>,
    Option<Paint>,
))
    ensures
        r == state_colors(style, selected, state, c),
{
    match state {
        ButtonState::Disabled => {
            let background = match style {
                Button::MenuFolder | Button::MenuItem | Button::MenuRoot => Paint::Fill(
                    c,
                    Shade::Base,
                ),
                _ => Paint::HalfBase(c),
            };
            (background, Some(Paint::OnDisabled(c)), Some(Paint::OnDisabled(c)))
        },
        _ => {
            let icon_like = match style {
                Button::Icon | Button::IconVertical | Button::HeaderBar => true,
                _ => false,
            };
            let text = if icon_like && selected {
                Paint::AccentText
            } else {
                Paint::On(c)
            };
            let shade = match state {
                ButtonState::Hovered => Shade::Hover,
                ButtonState::Pressed => Shade::Pressed,
                _ => Shade::Base,
            };
            (Paint::Fill(c, shade), Some(text), Some(text))
        },
    }
}

/// The look of a caption button, with `fill` behind it if it is hovered or pressed.
fn window_control(close: bool, round_corner: bool, window_focused: bool, fill: Option<Paint>) -> (r:
    ButtonLook)
    ensures
        r == caption_look(close, round_corner, window_focused, fill),
{
    // Same focused/unfocused split the header bar uses for its title text.
    let glyph = if fill.is_some() && close {
        Paint::White
    } else if window_focused {
        Paint::BackgroundOn
    } else {
        Paint::DimmedGlyph
    };
    ButtonLook {
        background: fill,
        overlay: None,
        border_radius: Radius::Caption { round: round_corner },
        border_width: 0,
        border_color: Paint::Transparent,
        outline_width: 0,
        outline_color: Paint::Transparent,
        icon_color: Some(glyph),
        text_color: Some(glyph),
    }
}

/// The look of a button of class `style`, with `state` choosing the colours its
/// component lends it.
pub fn appearance(
    theme: &ButtonTheme,
    focused: bool,
    selected: bool,
    disabled: bool,
    style: &Button,
    state: ButtonState,
) -> (r: ButtonLook)
    ensures
        r == button_look(*theme, focused, selected, disabled, *style, state),
{
    let style = *style;
    let mut corner = Radius::Xl;
    let mut look = ButtonLook {
        background: None,
        overlay: None,
        border_radius: Radius::Square,
        border_width: 0,
        border_color: Paint::Transparent,
        outline_width: 0,
        outline_color: Paint::Transparent,
        icon_color: None,
        text_color: None,
    };
    match style {
        Button::Standard | Button::Text | Button::Suggested | Button::Destructive
        | Button::Transparent => {
            let component = match style {
                Button::Standard => Component::Button,
                Button::Text => Component::TextButton,
                Button::Suggested => Component::AccentButton,
                Button::Destructive => Component::DestructiveButton,
                _ => Component::Transparent,
            };
            let (background, text, icon) = component_colors(style, selected, state, component);
            look.background = Some(background);
            if !matches!(style, Button::Standard) {
                look.text_color = text;
                look.icon_color = icon;
            } else if theme.high_contrast {
                look.border_color = Paint::Border(Component::Button);
                look.border_width = 1;
            }
        },
        Button::Icon | Button::IconVertical | Button::HeaderBar | Button::NavToggle => {
            if matches!(style, Button::IconVertical) {
                corner = Radius::M;
                if selected {
                    look.overlay = Some(Paint::SelectedState);
                }
            }
            if matches!(style, Button::NavToggle) {
                corner = Radius::S;
            }
            let (background, text, icon) = component_colors(
                style,
                selected,
                state,
                Component::IconButton,
            );
            look.background = Some(background);
            // Only a disabled icon button takes the component's icon and text colours.
            look.icon_color = if disabled {
                icon
            } else {
                None
            };
            look.text_color = if disabled {
                text
            } else {
                None
            };
        },
        Button::Image => {
            look.background = None;
            look.text_color = Some(Paint::AccentText);
            look.icon_color = Some(Paint::Accent);
            look.border_radius = Radius::S;
            if focused || selected {
                look.border_width = 2;
                look.border_color = Paint::Accent;
            } else if theme.high_contrast {
                look.border_color = Paint::ContainerDivider;
                look.border_width = 1;
            }
            return look;
        },
        Button::Link => {
            look.background = None;
            look.icon_color = Some(Paint::AccentText);
            look.text_color = Some(Paint::AccentText);
            corner = Radius::Zero;
        },
        Button::Custom => {},
        // The per-state fills of a caption button come from the theme's state looks,
        // which never route one through here; this is its resting look.
        Button::WindowControl { close, round_corner } => {
            return window_control(close, round_corner, selected, None);
        },
        Button::AppletMenu => {
            let (background, _, _) = component_colors(style, selected, state, Component::TextButton);
            look.background = Some(background);
            look.icon_color = Some(Paint::BackgroundOn);
            look.text_color = Some(Paint::BackgroundOn);
            corner = Radius::Zero;
        },
        Button::AppletIcon => {
            let (background, _, _) = component_colors(style, selected, state, Component::TextButton);
            look.background = Some(background);
            look.icon_color = Some(Paint::BackgroundOn);
            look.text_color = Some(Paint::BackgroundOn);
        },
        Button::MenuFolder => {
            // A menu folder cannot be disabled: it keeps the component's text colour.
            let (background, _, _) = component_colors(style, selected, state, Component::Background);
            look.background = Some(background);
            look.icon_color = Some(Paint::On(Component::Background));
            look.text_color = Some(Paint::On(Component::Background));
            corner = Radius::S;
        },
        Button::ListItem => {
            corner = Radius::Item;
            let (background, text, icon) = component_colors(
                style,
                selected,
                state,
                Component::ListButton,
            );
            if selected {
                look.background = Some(Paint::PrimaryHover);
                look.icon_color = Some(Paint::Accent);
                look.text_color = Some(Paint::AccentText);
            } else {
                look.background = Some(background);
                look.icon_color = icon;
                look.text_color = text;
            }
        },
        Button::MenuItem => {
            let (background, text, icon) = component_colors(style, selected, state, Component::Background);
            look.background = Some(background);
            look.icon_color = icon;
            look.text_color = text;
            corner = Radius::S;
        },
        Button::MenuRoot => {
            look.background = None;
            look.icon_color = None;
            look.text_color = None;
        },
    }
    look.border_radius = corner;
    if focused {
        look.outline_width = 1;
        look.outline_color = Paint::Accent;
        look.border_width = 2;
        look.border_color = Paint::Transparent;
    }
    look
}

impl ButtonTheme {
    /// The look of a button at rest; `None` for a custom button.
    pub fn active(&self, focused: bool, selected: bool, style: &Button) -> (r: Option<ButtonLook>)
        ensures
            r == class_look(*self, ButtonState::Active, focused, selected, *style),
    {
        match style {
            Button::Custom => None,
            Button::WindowControl { close, round_corner } => Some(
                window_control(*close, *round_corner, selected, None),
            ),
            _ => Some(appearance(self, focused, selected, false, style, ButtonState::Active)),
        }
    }

    /// The look of a disabled button; `None` for a custom button.
    pub fn disabled(&self, style: &Button) -> (r: Option<ButtonLook>)
        ensures
            r == class_look(*self, ButtonState::Disabled, false, false, *style),
    {
        match style {
            Button::Custom => None,
            _ => Some(appearance(self, false, false, true, style, ButtonState::Disabled)),
        }
    }

    /// The look of a button something is dragged over: its resting look, unfocused and
    /// unselected.
    pub fn drop_target(&self, style: &Button) -> (r: Option<ButtonLook>)
        ensures
            r == class_look(*self, ButtonState::Active, false, false, *style),
    {
        self.active(false, false, style)
    }

    /// The look of a hovered button; `None` for a custom button. A caption button takes
    /// the red fill if it closes the window and a light wash otherwise; an image is
    /// outlined as if focused.
    pub fn hovered(&self, focused: bool, selected: bool, style: &Button) -> (r: Option<ButtonLook>)
        ensures
            r == class_look(*self, ButtonState::Hovered, focused, selected, *style),
    {
        match style {
            Button::Custom => None,
            Button::WindowControl { close, round_corner } => {
                let fill = if *close {
                    Paint::CloseFill
                } else {
                    self.window_control_wash(false)
                };
                Some(window_control(*close, *round_corner, selected, Some(fill)))
            },
            _ => Some(
                appearance(
                    self,
                    focused || matches!(style, Button::Image),
                    selected,
                    false,
                    style,
                    ButtonState::Hovered,
                ),
            ),
        }
    }

    /// The look of a pressed button; `None` for a custom button. A caption button's fill
    /// is stronger than on hover, so the click reads as a click.
    pub fn pressed(&self, focused: bool, selected: bool, style: &Button) -> (r: Option<ButtonLook>)
        ensures
            r == class_look(*self, ButtonState::Pressed, focused, selected, *style),
    {
        match style {
            Button::Custom => None,
            Button::WindowControl { close, round_corner } => {
                let fill = if *close {
                    Paint::CloseFillPressed
                } else {
                    self.window_control_wash(true)
                };
                Some(window_control(*close, *round_corner, selected, Some(fill)))
            },
            _ => Some(appearance(self, focused, selected, false, style, ButtonState::Pressed)),
        }
    }

    /// The background of selected text.
    pub fn selection_background(&self) -> (r: Paint)
        ensures
            r == Paint::PrimaryBase,
    {
        Paint::PrimaryBase
    }

    /// The wash a caption button other than close paints on hover (or, `strong`, on
    /// press): white on a dark theme, black on a light one.
    fn window_control_wash(&self, strong: bool) -> (r: Paint)
        ensures
            r == (Paint::Wash { white: self.dark, strong }),
    {
        Paint::Wash { white: self.dark, strong }
    }
}

/// Each plain class of button is painted from its own component - standard from the
/// button component, text from the text button, suggested from the accent button,
/// destructive from the destructive button, transparent from the transparent one - in
/// every state: the resting, hovered or pressed fill, and a disabled button at half its
/// resting fill. Every plain class but the standard one also takes the component's text
/// colour (its disabled text colour when disabled) for text and icon; a standard button
/// keeps its own.
pub proof fn lemma_plain_buttons_paint_from_their_own_component(
    theme: ButtonTheme,
    state: ButtonState,
    focused: bool,
    selected: bool,
    style: Button,
)
    requires
        style is Standard || style is Text || style is Suggested || style is Destructive
            || style is Transparent,
    ensures
        class_look(theme, state, focused, selected, style) matches Some(look) && {
            let c = if style is Standard {
                Component::Button
            } else if style is Text {
                Component::TextButton
            } else if style is Suggested {
                Component::AccentButton
            } else if style is Destructive {
                Component::DestructiveButton
            } else {
                Component::Transparent
            };
            &&& look.background == Some(
                match state {
                    ButtonState::Active => Paint::Fill(c, Shade::Base),
                    ButtonState::Hovered => Paint::Fill(c, Shade::Hover),
                    ButtonState::Pressed => Paint::Fill(c, Shade::Pressed),
                    ButtonState::Disabled => Paint::HalfBase(c),
                },
            )
            &&& style is Standard ==> look.text_color is None && look.icon_color is None
            &&& !(style is Standard) ==> look.text_color == Some(
                if state is Disabled {
                    Paint::OnDisabled(c)
                } else {
                    Paint::On(c)
                },
            ) && look.icon_color == look.text_color
        },
{
}

/// An icon-like button (icon, vertical icon, header bar, navigation toggle) is painted
/// from the icon button component in every state, and keeps its own text and icon
/// colours unless it is disabled, when it takes the component's disabled text colour.
pub proof fn lemma_icon_buttons_keep_their_colours_unless_disabled(
    theme: ButtonTheme,
    state: ButtonState,
    focused: bool,
    selected: bool,
    style: Button,
)
    requires
        style is Icon || style is IconVertical || style is HeaderBar || style is NavToggle,
    ensures
        class_look(theme, state, focused, selected, style) matches Some(look) && {
            &&& look.background == Some(
                match state {
                    ButtonState::Active => Paint::Fill(Component::IconButton, Shade::Base),
                    ButtonState::Hovered => Paint::Fill(Component::IconButton, Shade::Hover),
                    ButtonState::Pressed => Paint::Fill(Component::IconButton, Shade::Pressed),
                    ButtonState::Disabled => Paint::HalfBase(Component::IconButton),
                },
            )
            &&& look.text_color == (if state is Disabled {
                Some(Paint::OnDisabled(Component::IconButton))
            } else {
                None
            })
            &&& look.icon_color == look.text_color
        },
{
}

/// A focused button other than an image or a caption button, in any state but
/// disabled, gets a one pixel accent outline and a transparent border two wide; an
/// unfocused one gets no outline.
pub proof fn lemma_focus_ring(
    theme: ButtonTheme,
    state: ButtonState,
    focused: bool,
    selected: bool,
    style: Button,
)
    requires
        !(style is Image),
        !(style is WindowControl),
        !(style is Custom),
        !(state is Disabled),
    ensures
        class_look(theme, state, focused, selected, style) matches Some(look) && (if focused {
            look.outline_width == 1 && look.outline_color == Paint::Accent && look.border_width == 2
                && look.border_color == Paint::Transparent
        } else {
            look.outline_width == 0
        }),
{
}

/// The corners of a resting button by class: the extra-large radius for standard, text,
/// suggested, destructive, transparent, icon, header bar, applet icon and menu root
/// buttons; medium for a vertical icon button; small for a navigation toggle, an image,
/// a menu folder and a menu item; zero for a link and an applet menu; a list row's own
/// radii; a caption button's corner.
pub proof fn lemma_button_corners(theme: ButtonTheme, focused: bool, selected: bool, style: Button)
    requires
        !(style is Custom),
    ensures
        class_look(theme, ButtonState::Active, focused, selected, style) matches Some(look) && look.border_radius == match style {
            Button::IconVertical => Radius::M,
            Button::NavToggle | Button::Image | Button::MenuFolder | Button::MenuItem => Radius::S,
            Button::Link | Button::AppletMenu => Radius::Zero,
            Button::ListItem => Radius::Item,
            Button::WindowControl { round_corner, .. } => Radius::Caption { round: round_corner },
            _ => Radius::Xl,
        },
{
}

/// A caption button rests unfilled; hovered, the close button turns red and any other
/// takes a light wash - white on a dark theme, black on a light one - and pressed, a
/// darker red or a stronger wash. The glyph is white on a filled close button, and
/// otherwise the background's text colour in a focused window (`selected`) and dimmed
/// in an unfocused one; a disabled caption button draws as unfocused and unfilled.
pub proof fn lemma_caption_button_looks(
    theme: ButtonTheme,
    state: ButtonState,
    focused: bool,
    selected: bool,
    close: bool,
    round_corner: bool,
)
    ensures
        class_look(theme, state, focused, selected, Button::WindowControl { close, round_corner })
            matches Some(look) && {
            let filled = state is Hovered || state is Pressed;
            let glyph = if filled && close {
                Paint::White
            } else if selected && !(state is Disabled) {
                Paint::BackgroundOn
            } else {
                Paint::DimmedGlyph
            };
            &&& look.background == match state {
                ButtonState::Hovered => Some(
                    if close {
                        Paint::CloseFill
                    } else {
                        Paint::Wash { white: theme.dark, strong: false }
                    },
                ),
                ButtonState::Pressed => Some(
                    if close {
                        Paint::CloseFillPressed
                    } else {
                        Paint::Wash { white: theme.dark, strong: true }
                    },
                ),
                _ => None,
            }
            &&& look.text_color == Some(glyph)
            &&& look.icon_color == Some(glyph)
            &&& look.border_radius == Radius::Caption { round: round_corner }
            &&& look.outline_width == 0
        },
{
}

/// The colours of the remaining classes at rest, hovered or pressed, where `shade` is
/// the component fill of the state: an image and a link are unfilled and take the accent
/// colours; an applet menu or icon takes the text button's fill and the background's
/// text colour; a menu folder and a menu item the window background component's fill -
/// the folder with that component's text colour, the item as the state lends it; a list
/// row the list button's fill and colours, or when selected the primary hover fill with
/// accent colours; a menu root nothing.
pub proof fn lemma_other_button_colours(
    theme: ButtonTheme,
    state: ButtonState,
    focused: bool,
    selected: bool,
    style: Button,
)
    requires
        !(state is Disabled),
    ensures
        class_look(theme, state, focused, selected, style) matches Some(look) ==> {
            let shade = match state {
                ButtonState::Hovered => Shade::Hover,
                ButtonState::Pressed => Shade::Pressed,
                _ => Shade::Base,
            };
            &&& style is Image ==> look.background is None && look.text_color == Some(Paint::AccentText)
                && look.icon_color == Some(Paint::Accent)
            &&& style is Link ==> look.background is None && look.text_color == Some(Paint::AccentText)
                && look.icon_color == Some(Paint::AccentText)
            &&& (style is AppletMenu || style is AppletIcon) ==> look.background == Some(
                Paint::Fill(Component::TextButton, shade),
            ) && look.text_color == Some(Paint::BackgroundOn) && look.icon_color == Some(
                Paint::BackgroundOn,
            )
            &&& style is MenuFolder ==> look.background == Some(Paint::Fill(Component::Background, shade))
                && look.text_color == Some(Paint::On(Component::Background)) && look.icon_color == Some(
                Paint::On(Component::Background),
            )
            &&& style is MenuItem ==> look.background == Some(Paint::Fill(Component::Background, shade))
                && look.text_color == Some(Paint::On(Component::Background)) && look.icon_color == Some(
                Paint::On(Component::Background),
            )
            &&& (style is ListItem && selected) ==> look.background == Some(Paint::PrimaryHover)
                && look.text_color == Some(Paint::AccentText) && look.icon_color == Some(Paint::Accent)
            &&& (style is ListItem && !selected) ==> look.background == Some(
                Paint::Fill(Component::ListButton, shade),
            ) && look.text_color == Some(Paint::On(Component::ListButton)) && look.icon_color == Some(
                Paint::On(Component::ListButton),
            )
            &&& style is MenuRoot ==> look.background is None && look.text_color is None
                && look.icon_color is None
        },
{
}

/// Disabled, a button of any class but a menu, a caption button or a custom one is
/// drawn at half its resting fill; a menu keeps its full resting fill.
pub proof fn lemma_disabled_buttons_fade(theme: ButtonTheme, style: Button)
    ensures
        class_look(theme, ButtonState::Disabled, false, false, style) matches Some(look) ==> {
            &&& (style is MenuFolder || style is MenuItem) ==> look.background == Some(
                Paint::Fill(Component::Background, Shade::Base),
            )
            &&& style is ListItem ==> look.background == Some(Paint::HalfBase(Component::ListButton))
            &&& (style is AppletMenu || style is AppletIcon) ==> look.background == Some(
                Paint::HalfBase(Component::TextButton),
            )
        },
        class_look(theme, ButtonState::Disabled, false, false, style) is None <==> style is Custom,
{
}

} // verus!
