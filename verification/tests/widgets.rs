use cosmic::app::about_window::{header, title, AboutTitle};
use cosmic::app::window_preset::{Chrome, WindowPreset};
use cosmic::widget::header_bar::{header_bar, Density, HeaderBarWidget, HeaderCenter};
use cosmic::font::FontPreset;
use cosmic::theme::style::button::{Paint, Radius};
use cosmic::widget::tab_bar::{horizontal, vertical, SegmentedButtonStyle, TabOrientation};
use std::collections::HashMap;
use iced_core::Size;

#[test]
fn a_server_side_bar_keeps_its_fixed_padding() {
    let layout = header_bar::<u8, u8>()
        .is_ssd(true)
        .view(Density::Compact, [1, 2, 3, 4], 2, 4);
    assert_eq!(layout.padding, [2, 8, 2, 8]);
    assert_eq!(layout.height, 36);
    assert!(!layout.transparent);
}

#[test]
fn a_theme_padding_replaces_the_toolkit_padding() {
    let layout = header_bar::<u8, u8>().view(Density::Standard, [5, 6, 0, 6], 2, 4);
    assert_eq!(layout.padding, [5, 6, 0, 6]);
    assert_eq!(layout.height, 37);
    assert!(layout.transparent);
}

#[test]
fn the_toolkit_padding_follows_density_and_maximization() {
    let plain = |density, maximized| {
        header_bar::<u8, u8>()
            .maximized(maximized)
            .view(density, [0, 0, 0, 0], 2, 4)
            .padding
    };
    assert_eq!(plain(Density::Compact, true), [4, 8, 4, 8]);
    assert_eq!(plain(Density::Compact, false), [3, 7, 4, 7]);
    assert_eq!(plain(Density::Standard, true), [8, 8, 8, 8]);
    assert_eq!(plain(Density::Spacious, false), [7, 7, 8, 7]);
    let own = header_bar::<u8, u8>()
        .density(Density::Compact)
        .view(Density::Spacious, [0, 0, 0, 0], 2, 4);
    assert_eq!(own.padding, [3, 7, 4, 7]);
    assert_eq!(own.height, 39);
}

#[test]
fn caption_buttons_come_in_order_and_only_the_last_rounds() {
    let layout = header_bar::<u8, u8>()
        .on_minimize(1)
        .on_maximize(2)
        .on_close(3)
        .focused(true)
        .view(Density::Standard, [0, 0, 0, 0], 2, 4);
    let icons: Vec<&str> = layout.controls.iter().map(|c| c.icon).collect();
    assert_eq!(
        icons,
        vec![
            "wmde-window-minimize-symbolic",
            "wmde-window-maximize-symbolic",
            "wmde-window-close-symbolic"
        ]
    );
    let closes: Vec<bool> = layout.controls.iter().map(|c| c.close).collect();
    assert_eq!(closes, vec![false, false, true]);
    let rounds: Vec<bool> = layout.controls.iter().map(|c| c.round_corner).collect();
    assert_eq!(rounds, vec![false, false, true]);
    let presses: Vec<u8> = layout.controls.iter().map(|c| c.on_press).collect();
    assert_eq!(presses, vec![1, 2, 3]);
    assert!(layout.controls.iter().all(|c| c.selected && c.height == 28));
    assert_eq!(layout.on_release, None);
}

#[test]
fn a_maximized_window_offers_restore_and_sharp_corners_round_nothing() {
    let layout = header_bar::<u8, u8>()
        .on_maximize(2)
        .maximized(true)
        .sharp_corners(true)
        .view(Density::Standard, [0, 0, 0, 0], 2, 4);
    assert_eq!(layout.controls.len(), 1);
    assert_eq!(layout.controls[0].icon, "wmde-window-restore-symbolic");
    assert!(!layout.controls[0].round_corner);
    assert!(!layout.controls[0].selected);
    assert!(layout.sharp_corners);
}

#[test]
fn the_center_holds_elements_then_the_title() {
    let with_elements = header_bar::<u8, u8>()
        .title("Files")
        .center(7)
        .start(1)
        .end(9)
        .view(Density::Standard, [0, 0, 0, 0], 2, 4);
    assert!(matches!(with_elements.center, HeaderCenter::Elements(ref v) if v == &vec![7]));
    assert_eq!(with_elements.start, vec![1]);
    assert_eq!(with_elements.end, vec![9]);
    let with_title = header_bar::<u8, u8>()
        .title("Files")
        .view(Density::Standard, [0, 0, 0, 0], 2, 4);
    assert!(matches!(with_title.center, HeaderCenter::Title { ref text, .. } if text.content == "Files"));
    let empty = header_bar::<u8, u8>().view(Density::Standard, [0, 0, 0, 0], 2, 4);
    assert!(matches!(empty.center, HeaderCenter::Empty));
}

#[test]
fn pointer_messages_reach_the_layout() {
    let layout = header_bar::<u8, u8>()
        .on_drag(4)
        .on_double_click(5)
        .on_right_click(6)
        .view(Density::Standard, [0, 0, 0, 0], 2, 4);
    assert_eq!(layout.on_drag, Some(4));
    assert_eq!(layout.on_double_press, Some(5));
    assert_eq!(layout.on_right_press, Some(6));
    assert!(layout.controls.is_empty());
}

#[test]
fn the_widget_walks_start_end_controls_then_center() {
    let with_center = HeaderBarWidget::new(1u8, Some(4u8), 2u8, 3u8, [0, 0, 0, 0]);
    let order: Vec<u8> = with_center.elems().into_iter().copied().collect();
    assert_eq!(order, vec![1, 2, 3, 4]);
    let without = HeaderBarWidget::new(1u8, None, 2u8, 3u8, [0, 0, 0, 0]);
    let order: Vec<u8> = without.elems().into_iter().copied().collect();
    assert_eq!(order, vec![1, 2, 3]);
}

#[test]
fn a_dialog_opens_fixed_and_without_a_resize_border() {
    let size = Size::new(480.0, 600.0);
    let preset = WindowPreset::dialog(size);
    assert!(!preset.is_resizable());
    let settings = preset.settings("com.example.App");
    assert_eq!(settings.size, size);
    assert_eq!(settings.min_size, Some(size));
    assert_eq!(settings.max_size, Some(size));
    assert!(!settings.resizable);
    assert_eq!(settings.resize_border, 0);
    assert!(!settings.decorations);
    assert!(settings.transparent);
    assert_eq!(settings.application_id, "com.example.App");
}

#[test]
fn a_utility_window_resizes_down_to_its_minimum() {
    let size = Size::new(800.0, 600.0);
    let min = Size::new(300.0, 200.0);
    let preset = WindowPreset::utility(size, min);
    assert!(preset.is_resizable());
    let settings = preset.settings("com.example.App");
    assert_eq!(settings.size, size);
    assert_eq!(settings.min_size, Some(min));
    assert_eq!(settings.max_size, None);
    assert!(settings.resizable);
    assert_eq!(settings.resize_border, 8);
}

#[test]
fn only_a_utility_window_gets_maximize() {
    let dialog = WindowPreset::dialog(Size::new(480.0, 600.0))
        .view::<u8, u8>(7, &vec![3, 7], Chrome::new("Preview", 1, 2).on_maximize(3), 0)
        .header
        .view(Density::Standard, [0, 0, 0, 0], 2, 4);
    let icons: Vec<&str> = dialog.controls.iter().map(|c| c.icon).collect();
    assert_eq!(icons, vec!["wmde-window-close-symbolic"]);
    assert_eq!(dialog.on_drag, Some(2));
    assert_eq!(dialog.on_double_press, None);
    assert!(matches!(dialog.center, HeaderCenter::Title { ref text, .. } if text.content == "Preview"));
    assert!(dialog.focused);

    let utility = WindowPreset::utility(Size::new(800.0, 600.0), Size::new(300.0, 200.0))
        .view::<u8, u8>(7, &vec![3], Chrome::new("Preview", 1, 2).on_maximize(3), 0)
        .header
        .view(Density::Standard, [0, 0, 0, 0], 2, 4);
    let presses: Vec<u8> = utility.controls.iter().map(|c| c.on_press).collect();
    assert_eq!(presses, vec![3, 1]);
    assert_eq!(utility.on_double_press, Some(3));
    assert!(!utility.focused);

    let plain_utility = WindowPreset::utility(Size::new(800.0, 600.0), Size::new(300.0, 200.0))
        .view::<u8, u8>(7, &vec![], Chrome::new("Preview", 1, 2), 0)
        .header
        .view(Density::Standard, [0, 0, 0, 0], 2, 4);
    assert_eq!(plain_utility.controls.len(), 1);
}

#[test]
fn tab_strips_use_the_windows_metrics() {
    let model = vec!["a", "b"];
    let h = horizontal(&model, 8);
    assert_eq!(h.orientation, TabOrientation::Horizontal);
    assert_eq!(h.minimum_button_width, 76);
    assert_eq!(h.maximum_button_width, 250);
    assert_eq!(h.button_height, 44);
    assert_eq!(h.button_padding, [8, 8, 8, 8]);
    assert_eq!(h.model.len(), 2);
    let v = vertical(&model, 4);
    assert_eq!(v.orientation, TabOrientation::Vertical);
    assert_eq!(v.button_padding, [4, 4, 4, 4]);
    assert_eq!(v.minimum_button_width, 76);
    assert_eq!(h.font_active, FontPreset::Default);
    assert_eq!(v.style, SegmentedButtonStyle::TabBar);
}

#[test]
fn a_preset_frames_its_content_below_the_bar_in_a_one_pixel_border() {
    let frame = WindowPreset::dialog(Size::new(480.0, 600.0))
        .view::<u8, u8>(5, &vec![5], Chrome::new("Preview", 1, 2), 9);
    assert_eq!(frame.content, 9);
    assert_eq!(frame.padding, 1);
    assert_eq!(frame.border_width, 1);
    assert_eq!(frame.border_color, Paint::BackgroundDivider);
    assert_eq!(frame.background, Paint::BackgroundBase);
    assert_eq!(frame.corner_radius, Radius::Window);
    let layout = frame.header.view(Density::Standard, [0, 0, 0, 0], 2, 4);
    assert!(layout.focused);
    assert_eq!(layout.start_spacing, 2);
    assert_eq!(layout.center_spacing, 2);
    assert_eq!(layout.end_spacing, 4);
}

#[test]
fn the_about_window_is_empty_without_an_about_page() {
    let titles: HashMap<u64, String> = HashMap::new();
    assert!(cosmic::app::about_window::view::<u8, u8>(None, Some(3), &titles, &vec![3], 1, 2, 8, 16).is_none());
}

#[test]
fn the_about_window_takes_its_title_and_focus_from_its_id() {
    let mut titles: HashMap<u64, String> = HashMap::new();
    titles.insert(3, "About Files".to_string());
    let frame = cosmic::app::about_window::view::<u8, u8>(Some(42), Some(3), &titles, &vec![1, 3], 1, 2, 8, 16).unwrap();
    assert_eq!(frame.content.page, 42);
    assert_eq!(frame.content.padding, [8, 16, 16, 16]);
    assert_eq!(frame.content.max_width, 480);
    assert_eq!(frame.padding, 1);
    let layout = frame.header.view(Density::Standard, [0, 0, 0, 0], 2, 4);
    assert!(layout.focused);
    assert!(matches!(layout.center, HeaderCenter::Title { ref text, .. } if text.content == "About Files"));
    let presses: Vec<u8> = layout.controls.iter().map(|c| c.on_press).collect();
    assert_eq!(presses, vec![1]);
    assert_eq!(layout.on_drag, Some(2));
    assert_eq!(layout.on_double_press, None);

    let unknown = cosmic::app::about_window::view::<u8, u8>(Some(42), Some(4), &titles, &vec![1, 3], 1, 2, 8, 16).unwrap();
    let layout = unknown.header.view(Density::Standard, [0, 0, 0, 0], 2, 4);
    assert!(!layout.focused);
    assert!(matches!(layout.center, HeaderCenter::Empty));

    let unopened = cosmic::app::about_window::view::<u8, u8>(Some(42), None, &titles, &vec![3], 1, 2, 8, 16).unwrap();
    let layout = unopened.header.view(Density::Standard, [0, 0, 0, 0], 2, 4);
    assert!(!layout.focused);
    assert!(matches!(layout.center, HeaderCenter::Empty));
}

#[test]
fn caption_buttons_are_forty_six_wide_with_a_centred_glyph() {
    let layout = header_bar::<u8, u8>()
        .on_minimize(1)
        .on_close(2)
        .focused(true)
        .view(Density::Standard, [0, 0, 0, 0], 2, 4);
    for c in &layout.controls {
        assert_eq!((c.width, c.icon_size, c.side_padding, c.height), (46, 16, 15, 28));
        assert_eq!(c.vertical_padding, 0);
        assert!(c.selected);
    }
    assert_eq!(layout.controls_spacing, 0);
}

#[test]
fn the_title_is_one_line_ellipsized_at_the_end() {
    let layout = header_bar::<u8, u8>().title("Files").view(Density::Standard, [0, 0, 0, 0], 2, 4);
    match layout.center {
        HeaderCenter::Title { wraps, ellipsized_after_lines, .. } => {
            assert!(!wraps);
            assert_eq!(ellipsized_after_lines, 1);
        }
        _ => panic!("the title fills the middle of the bar"),
    }
}

#[test]
fn the_about_title_names_the_application_when_it_has_a_name() {
    assert_eq!(title(Some("Files")), AboutTitle::AboutApp("Files".to_string()));
    assert_eq!(title(None), AboutTitle::About);
}

#[test]
fn the_about_header_has_only_a_close_button() {
    let layout = header::<u8, u8>(Some("About Files"), true, 1, 2)
        .view(Density::Standard, [0, 0, 0, 0], 2, 4);
    let presses: Vec<u8> = layout.controls.iter().map(|c| c.on_press).collect();
    assert_eq!(presses, vec![1]);
    assert_eq!(layout.on_drag, Some(2));
    assert_eq!(layout.on_double_press, None);
    assert!(matches!(layout.center, HeaderCenter::Title { ref text, .. } if text.content == "About Files"));
    let untitled = header::<u8, u8>(None, false, 1, 2).view(Density::Standard, [0, 0, 0, 0], 2, 4);
    assert!(matches!(untitled.center, HeaderCenter::Empty));
}
