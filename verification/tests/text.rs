use cosmic::font::{
    bold, light, mono, semibold, semibold_weight, Family, FontPreset, SemiboldWeight,
    Weight,
};
use cosmic::widget::header_bar::{header_bar, Density, HeaderCenter};
use cosmic::widget::text::{
    body, caption, caption_heading, heading, monotext, text, title1, title2, title3, title4,
    Typography,
};

#[test]
fn titles_are_larger_than_interface_text() {
    let t = title1("Settings");
    assert_eq!(t.content, "Settings");
    assert_eq!((t.size, t.line_height, t.font), (Some(35), Some(52), FontPreset::Semibold));
    let t = title2("a");
    assert_eq!((t.size, t.line_height, t.font), (Some(29), Some(43), FontPreset::Semibold));
    let t = title3("a");
    assert_eq!((t.size, t.line_height, t.font), (Some(24), Some(36), FontPreset::Bold));
    let t = title4("a");
    assert_eq!((t.size, t.line_height, t.font), (Some(20), Some(30), FontPreset::Bold));
}

#[test]
fn interface_text_is_twelve_on_seventeen_and_set_apart_by_weight() {
    for (t, font) in [
        (heading("x"), FontPreset::Bold),
        (caption_heading("x"), FontPreset::Semibold),
        (body("x"), FontPreset::Default),
        (caption("x"), FontPreset::Default),
        (monotext("x"), FontPreset::Mono),
    ] {
        assert_eq!((t.size, t.line_height, t.font), (Some(12), Some(17), font));
        assert_eq!(t.content, "x");
    }
}

#[test]
fn plain_text_keeps_the_widget_size() {
    let t = text("hello");
    assert_eq!(t.content, "hello");
    assert_eq!((t.size, t.line_height, t.font), (None, None, FontPreset::Default));
}

#[test]
fn presets_agree_with_their_metrics() {
    assert_eq!(Typography::Caption.metrics(), Typography::Body.metrics());
    assert_eq!(Typography::Title1.metrics(), (35, 52, FontPreset::Semibold));
    assert_eq!(Typography::Monotext.metrics(), (12, 17, FontPreset::Mono));
}

#[test]
fn the_header_title_is_a_heading() {
    let layout = header_bar::<u8, u8>().title("Files").view(Density::Standard, [0, 0, 0, 0], 2, 4);
    match layout.center {
        HeaderCenter::Title { text, .. } => assert_eq!(text, heading("Files")),
        _ => panic!("the title fills the middle of the bar"),
    }
}

#[test]
fn a_family_without_a_semibold_face_asks_for_bold_and_keeps_the_answer() {
    assert_eq!(semibold_weight(true, None, Some(false)), (SemiboldWeight::Bold, true));
    assert_eq!(semibold_weight(true, None, Some(true)), (SemiboldWeight::Semibold, true));
}

#[test]
fn a_kept_answer_is_reused_and_a_busy_database_is_asked_again_later() {
    assert_eq!(
        semibold_weight(true, Some(SemiboldWeight::Bold), Some(true)),
        (SemiboldWeight::Bold, false)
    );
    assert_eq!(semibold_weight(true, None, None), (SemiboldWeight::Semibold, false));
    assert_eq!(semibold_weight(false, None, Some(false)), (SemiboldWeight::Semibold, false));
}

#[test]
fn each_font_preset_asks_for_its_weight() {
    assert_eq!(cosmic::font::default().weight(Weight::Normal, Weight::Medium, SemiboldWeight::Bold), Weight::Normal);
    assert_eq!(light().weight(Weight::Normal, Weight::Medium, SemiboldWeight::Bold), Weight::Light);
    assert_eq!(semibold().weight(Weight::Normal, Weight::Medium, SemiboldWeight::Bold), Weight::Bold);
    assert_eq!(semibold().weight(Weight::Normal, Weight::Medium, SemiboldWeight::Semibold), Weight::Semibold);
    assert_eq!(bold().weight(Weight::Normal, Weight::Medium, SemiboldWeight::Semibold), Weight::Bold);
    assert_eq!(mono().weight(Weight::Normal, Weight::Medium, SemiboldWeight::Semibold), Weight::Medium);
    assert_eq!(mono().family(), Family::Monospace);
    assert_eq!(bold().family(), Family::Interface);
}
