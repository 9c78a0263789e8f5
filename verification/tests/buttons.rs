use cosmic::theme::style::button::{
    appearance, Button, ButtonLook, ButtonState, ButtonTheme, Component, Paint, Radius, Shade,
};

fn light() -> ButtonTheme {
    ButtonTheme { high_contrast: false, dark: false }
}

fn dark() -> ButtonTheme {
    ButtonTheme { high_contrast: false, dark: true }
}

fn plain() -> ButtonLook {
    ButtonLook {
        background: None,
        overlay: None,
        border_radius: Radius::Square,
        border_width: 0,
        border_color: Paint::Transparent,
        outline_width: 0,
        outline_color: Paint::Transparent,
        icon_color: None,
        text_color: None,
    }
}

#[test]
fn the_default_button_is_the_standard_one() {
    assert_eq!(Button::default(), Button::Standard);
}

#[test]
fn a_standard_button_at_rest_takes_the_button_fill() {
    let look = light().active(false, false, &Button::Standard).unwrap();
    assert_eq!(
        look,
        ButtonLook {
            background: Some(Paint::Fill(Component::Button, Shade::Base)),
            border_radius: Radius::Xl,
            ..plain()
        }
    );
}

#[test]
fn a_high_contrast_standard_button_gets_a_border() {
    let theme = ButtonTheme { high_contrast: true, dark: false };
    let look = theme.active(false, false, &Button::Standard).unwrap();
    assert_eq!(look.border_width, 1);
    assert_eq!(look.border_color, Paint::Border(Component::Button));
}

#[test]
fn a_focused_button_gets_the_accent_outline() {
    let look = light().hovered(true, false, &Button::Suggested).unwrap();
    assert_eq!(
        look,
        ButtonLook {
            background: Some(Paint::Fill(Component::AccentButton, Shade::Hover)),
            text_color: Some(Paint::On(Component::AccentButton)),
            icon_color: Some(Paint::On(Component::AccentButton)),
            border_radius: Radius::Xl,
            outline_width: 1,
            outline_color: Paint::Accent,
            border_width: 2,
            border_color: Paint::Transparent,
            ..plain()
        }
    );
}

#[test]
fn a_hovered_image_is_bordered_as_if_focused() {
    let look = light().hovered(false, false, &Button::Image).unwrap();
    assert_eq!(look.border_width, 2);
    assert_eq!(look.border_color, Paint::Accent);
    assert_eq!(look.border_radius, Radius::S);
    assert_eq!(look.outline_width, 0);
    let resting = light().active(false, false, &Button::Image).unwrap();
    assert_eq!(resting.border_width, 0);
}

#[test]
fn a_hovered_close_button_turns_red_with_a_white_glyph() {
    let style = Button::WindowControl { close: true, round_corner: true };
    let look = dark().hovered(false, false, &style).unwrap();
    assert_eq!(
        look,
        ButtonLook {
            background: Some(Paint::CloseFill),
            border_radius: Radius::Caption { round: true },
            icon_color: Some(Paint::White),
            text_color: Some(Paint::White),
            ..plain()
        }
    );
    let pressed = dark().pressed(false, false, &style).unwrap();
    assert_eq!(pressed.background, Some(Paint::CloseFillPressed));
}

#[test]
fn other_caption_buttons_wash_lighter_on_dark_themes_and_darker_on_light_ones() {
    let style = Button::WindowControl { close: false, round_corner: false };
    let on_dark = dark().hovered(false, true, &style).unwrap();
    assert_eq!(on_dark.background, Some(Paint::Wash { white: true, strong: false }));
    assert_eq!(on_dark.icon_color, Some(Paint::BackgroundOn));
    assert_eq!(on_dark.border_radius, Radius::Caption { round: false });
    let on_light = light().pressed(false, true, &style).unwrap();
    assert_eq!(on_light.background, Some(Paint::Wash { white: false, strong: true }));
}

#[test]
fn an_unfocused_window_dims_its_caption_glyphs() {
    let style = Button::WindowControl { close: false, round_corner: true };
    let focused = light().active(false, true, &style).unwrap();
    let unfocused = light().active(false, false, &style).unwrap();
    assert_eq!(focused.text_color, Some(Paint::BackgroundOn));
    assert_eq!(unfocused.text_color, Some(Paint::DimmedGlyph));
    assert_eq!(unfocused.background, None);
}

#[test]
fn a_disabled_button_fades_except_in_menus() {
    let standard = light().disabled(&Button::Text).unwrap();
    assert_eq!(standard.background, Some(Paint::HalfBase(Component::TextButton)));
    assert_eq!(standard.text_color, Some(Paint::OnDisabled(Component::TextButton)));
    let item = light().disabled(&Button::MenuItem).unwrap();
    assert_eq!(item.background, Some(Paint::Fill(Component::Background, Shade::Base)));
    assert_eq!(item.border_radius, Radius::S);
}

#[test]
fn an_icon_button_keeps_its_own_colours_unless_disabled() {
    let active = light().active(false, true, &Button::Icon).unwrap();
    assert_eq!(active.text_color, None);
    assert_eq!(active.icon_color, None);
    assert_eq!(active.background, Some(Paint::Fill(Component::IconButton, Shade::Base)));
    let disabled = light().disabled(&Button::Icon).unwrap();
    assert_eq!(disabled.icon_color, Some(Paint::OnDisabled(Component::IconButton)));
}

#[test]
fn a_selected_vertical_icon_button_gets_the_selection_overlay() {
    let look = light().active(false, true, &Button::IconVertical).unwrap();
    assert_eq!(look.overlay, Some(Paint::SelectedState));
    assert_eq!(look.border_radius, Radius::M);
    let toggle = light().active(false, true, &Button::NavToggle).unwrap();
    assert_eq!(toggle.overlay, None);
    assert_eq!(toggle.border_radius, Radius::S);
}

#[test]
fn a_selected_list_row_takes_the_primary_hover_fill() {
    let look = light().active(false, true, &Button::ListItem).unwrap();
    assert_eq!(look.background, Some(Paint::PrimaryHover));
    assert_eq!(look.text_color, Some(Paint::AccentText));
    assert_eq!(look.border_radius, Radius::Item);
    let rest = light().active(false, false, &Button::ListItem).unwrap();
    assert_eq!(rest.background, Some(Paint::Fill(Component::ListButton, Shade::Base)));
}

#[test]
fn a_custom_button_is_styled_by_its_own_closures() {
    assert_eq!(light().active(true, true, &Button::Custom), None);
    assert_eq!(light().disabled(&Button::Custom), None);
    assert_eq!(light().hovered(false, false, &Button::Custom), None);
    assert_eq!(light().pressed(false, false, &Button::Custom), None);
}

#[test]
fn a_drop_target_looks_like_a_resting_unfocused_button() {
    for style in [Button::Standard, Button::Link, Button::AppletMenu, Button::MenuRoot] {
        assert_eq!(light().drop_target(&style), light().active(false, false, &style));
    }
}

#[test]
fn menus_and_links_take_their_own_radii() {
    assert_eq!(light().active(false, false, &Button::Link).unwrap().border_radius, Radius::Zero);
    assert_eq!(light().active(false, false, &Button::AppletMenu).unwrap().border_radius, Radius::Zero);
    assert_eq!(light().active(false, false, &Button::AppletIcon).unwrap().border_radius, Radius::Xl);
    assert_eq!(light().active(false, false, &Button::MenuFolder).unwrap().border_radius, Radius::S);
    let root = light().active(false, false, &Button::MenuRoot).unwrap();
    assert_eq!(root, ButtonLook { border_radius: Radius::Xl, ..plain() });
}

#[test]
fn appearance_of_a_custom_class_is_a_plain_rounded_look() {
    let look = appearance(&light(), false, false, false, &Button::Custom, ButtonState::Active);
    assert_eq!(look, ButtonLook { border_radius: Radius::Xl, ..plain() });
    assert_eq!(light().selection_background(), Paint::PrimaryBase);
}
