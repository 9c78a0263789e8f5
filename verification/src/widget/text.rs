//! Text typography: the size, line height and font of each text preset.

use crate::font::FontPreset;
use vstd::prelude::*;

verus! {

/// Available presets for text typography.
#[derive(Copy, Clone, Debug, PartialEq, Eq, Hash, Structural)]
pub enum Typography {
    Body,
    Caption,
    CaptionHeading,
    Heading,
    Monotext,
    Title1,
    Title2,
    Title3,
    Title4,
}

/// A run of text with what it is drawn with; a size or line height left unset is the
/// text widget's own.
#[derive(Clone, Debug, PartialEq, Eq)]
pub struct Text {
    pub content: String,
    /// Font size in logical pixels.
    pub size: Option<u16>,
    /// Line height in logical pixels.
    pub line_height: Option<u16>,
    pub font: FontPreset,
}

/// A text run as a value: content, size, line height, font.
pub open spec fn text_view(t: Text) -> (Seq<char>, Option<u16>, Option<u16>, FontPreset) {
    (t.content@, t.size, t.line_height, t.font)
}

/// Size, line height and font of each preset. Interface text is 12px on 17 - the size
/// Windows sets its chrome in - with a heading set apart by weight rather than size;
/// only the titles, which head pages, are larger.
pub open spec fn typography_metrics(t: Typography) -> (u16, u16, FontPreset) {
    match t {
        Typography::Title1 => (35, 52, FontPreset::Semibold),
        Typography::Title2 => (29, 43, FontPreset::Semibold),
        Typography::Title3 => (24, 36, FontPreset::Bold),
        Typography::Title4 => (20, 30, FontPreset::Bold),
        Typography::Heading => (12, 17, FontPreset::Bold),
        Typography::CaptionHeading => (12, 17, FontPreset::Semibold),
        Typography::Body => (12, 17, FontPreset::Default),
        Typography::Caption => (12, 17, FontPreset::Default),
        Typography::Monotext => (12, 17, FontPreset::Mono),
    }
}

/// `content` set in the preset `t`.
pub open spec fn preset_text(t: Typography, content: Seq<char>) -> (
    Seq<char>,
    Option<u16>,
    Option<u16>,
    FontPreset,
) {
    let (size, line_height, font) = typography_metrics(t);
    (content, Some(size), Some(line_height), font)
}

impl Typography {
    /// Size, line height and font of this preset.
    pub fn metrics(self) -> (r: (u16, u16, FontPreset))
        ensures
            r == typography_metrics(self),
    {
        match self {
            Typography::Title1 => (35, 52, FontPreset::Semibold),
            Typography::Title2 => (29, 43, FontPreset::Semibold),
            Typography::Title3 => (24, 36, FontPreset::Bold),
            Typography::Title4 => (20, 30, FontPreset::Bold),
            Typography::Heading => (12, 17, FontPreset::Bold),
            Typography::CaptionHeading => (12, 17, FontPreset::Semibold),
            Typography::Body => (12, 17, FontPreset::Default),
            Typography::Caption => (12, 17, FontPreset::Default),
            Typography::Monotext => (12, 17, FontPreset::Mono),
        }
    }
}

/// `content` set in the preset `t`.
fn preset(t: Typography, content: &str) -> (r: Text)
    ensures
        text_view(r) == preset_text(t, content@),
{
    let (size, line_height, font) = t.metrics();
    Text { content: content.to_owned(), size: Some(size), line_height: Some(line_height), font }
}

/// Text in the interface font, at the text widget's own size.
pub fn text(content: &str) -> (r: Text)
    ensures
        text_view(r) == (content@, None::<u16>, None::<u16>, FontPreset::Default),
{
    Text { content: content.to_owned(), size: None, line_height: None, font: FontPreset::Default }
}

/// Text with the Title 1 typography preset.
pub fn title1(content: &str) -> (r: Text)
    ensures
        text_view(r) == preset_text(Typography::Title1, content@),
{
    preset(Typography::Title1, content)
}

/// Text with the Title 2 typography preset.
pub fn title2(content: &str) -> (r: Text)
    ensures
        text_view(r) == preset_text(Typography::Title2, content@),
{
    preset(Typography::Title2, content)
}

/// Text with the Title 3 typography preset.
pub fn title3(content: &str) -> (r: Text)
    ensures
        text_view(r) == preset_text(Typography::Title3, content@),
{
    preset(Typography::Title3, content)
}

/// Text with the Title 4 typography preset.
pub fn title4(content: &str) -> (r: Text)
    ensures
        text_view(r) == preset_text(Typography::Title4, content@),
{
    preset(Typography::Title4, content)
}

/// Text with the Heading typography preset: interface size, bold.
pub fn heading(content: &str) -> (r: Text)
    ensures
        text_view(r) == preset_text(Typography::Heading, content@),
{
    preset(Typography::Heading, content)
}

/// Text with the Caption Heading typography preset.
pub fn caption_heading(content: &str) -> (r: Text)
    ensures
        text_view(r) == preset_text(Typography::CaptionHeading, content@),
{
    preset(Typography::CaptionHeading, content)
}

/// Text with the Body typography preset.
pub fn body(content: &str) -> (r: Text)
    ensures
        text_view(r) == preset_text(Typography::Body, content@),
{
    preset(Typography::Body, content)
}

/// Text with the Caption typography preset: the same metrics as body text, which is
/// how secondary text reads on Windows too - the same size, dimmed.
pub fn caption(content: &str) -> (r: Text)
    ensures
        text_view(r) == preset_text(Typography::Caption, content@),
{
    preset(Typography::Caption, content)
}

/// Text with the Monotext typography preset: the monospace run inside ordinary
/// interface text, such as a path or a hash.
pub fn monotext(content: &str) -> (r: Text)
    ensures
        text_view(r) == preset_text(Typography::Monotext, content@),
{
    preset(Typography::Monotext, content)
}

/// The metrics of every preset: the titles at 35/52 and 29/43 semibold, 24/36 and
/// 20/30 bold; every other preset at 12/17 - the heading bold, the caption heading
/// semibold, body and caption in the interface font at its own weight, and monotext in
/// the monospace font.
pub proof fn lemma_typography_metrics(t: Typography)
    ensures
        typography_metrics(t) == match t {
            Typography::Title1 => (35u16, 52u16, FontPreset::Semibold),
            Typography::Title2 => (29u16, 43u16, FontPreset::Semibold),
            Typography::Title3 => (24u16, 36u16, FontPreset::Bold),
            Typography::Title4 => (20u16, 30u16, FontPreset::Bold),
            Typography::Heading => (12u16, 17u16, FontPreset::Bold),
            Typography::CaptionHeading => (12u16, 17u16, FontPreset::Semibold),
            Typography::Monotext => (12u16, 17u16, FontPreset::Mono),
            _ => (12u16, 17u16, FontPreset::Default),
        },
        preset_text(t, Seq::<char>::empty()).1 is Some,
{
}

} // verus!
