//! Which font a piece of interface text asks for.

use vstd::prelude::*;

verus! {

/// The fonts the toolkit picks from: the configured interface font at its own weight,
/// light, semibold or bold, and the configured monospace font.
#[derive(Clone, Copy, Debug, PartialEq, Eq, Hash, Structural)]
pub enum FontPreset {
    Default,
    Light,
    Semibold,
    Bold,
    Mono,
}

/// The weight of a font face, lightest to heaviest.
#[derive(Clone, Copy, Debug, PartialEq, Eq, Hash, Structural)]
pub enum Weight {
    Thin,
    ExtraLight,
    Light,
    Normal,
    Medium,
    Semibold,
    Bold,
    ExtraBold,
    Black,
}

/// The configured font a preset draws from.
#[derive(Clone, Copy, Debug, PartialEq, Eq, Hash, Structural)]
pub enum Family {
    /// The interface font.
    Interface,
    /// The monospace font.
    Monospace,
}

/// The configured font a preset draws from: the monospace font for `Mono`, the
/// interface font for the rest.
pub open spec fn preset_family(p: FontPreset) -> Family {
    match p {
        FontPreset::Mono => Family::Monospace,
        _ => Family::Interface,
    }
}

/// The weight a preset asks for: the configured font's own weight for `Default` and
/// `Mono`, light and bold as named, and for `Semibold` what asking for a semibold face
/// of the interface font comes to.
pub open spec fn preset_weight(
    p: FontPreset,
    interface: Weight,
    monospace: Weight,
    semibold: SemiboldWeight,
) -> Weight {
    match p {
        FontPreset::Default => interface,
        FontPreset::Light => Weight::Light,
        FontPreset::Semibold => match semibold {
            SemiboldWeight::Semibold => Weight::Semibold,
            SemiboldWeight::Bold => Weight::Bold,
        },
        FontPreset::Bold => Weight::Bold,
        FontPreset::Mono => monospace,
    }
}

impl FontPreset {
    /// The configured font this preset draws from.
    pub fn family(self) -> (r: Family)
        ensures
            r == preset_family(self),
    {
        match self {
            FontPreset::Mono => Family::Monospace,
            _ => Family::Interface,
        }
    }

    /// The weight this preset asks for, given the configured interface and monospace
    /// weights and what asking for a semibold face of the interface font came to.
    pub fn weight(self, interface: Weight, monospace: Weight, semibold: SemiboldWeight) -> (r:
        Weight)
        ensures
            r == preset_weight(self, interface, monospace, semibold),
    {
        match self {
            FontPreset::Default => interface,
            FontPreset::Light => Weight::Light,
            FontPreset::Semibold => match semibold {
                SemiboldWeight::Semibold => Weight::Semibold,
                SemiboldWeight::Bold => Weight::Bold,
            },
            FontPreset::Bold => Weight::Bold,
            FontPreset::Mono => monospace,
        }
    }
}

/// The interface font at its configured weight.
pub fn default() -> (r: FontPreset)
    ensures
        r == FontPreset::Default,
{
    FontPreset::Default
}

/// The interface font, light.
pub fn light() -> (r: FontPreset)
    ensures
        r == FontPreset::Light,
{
    FontPreset::Light
}

/// The interface font, semibold.
pub fn semibold() -> (r: FontPreset)
    ensures
        r == FontPreset::Semibold,
{
    FontPreset::Semibold
}

/// The interface font, bold.
pub fn bold() -> (r: FontPreset)
    ensures
        r == FontPreset::Bold,
{
    FontPreset::Bold
}

/// The monospace font at its configured weight.
pub fn mono() -> (r: FontPreset)
    ensures
        r == FontPreset::Mono,
{
    FontPreset::Mono
}

/// The weight a request for a semibold face is answered with.
#[derive(Clone, Copy, Debug, PartialEq, Eq, Hash, Structural)]
pub enum SemiboldWeight {
    /// Weight 600.
    Semibold,
    /// Weight 700, for a family with no face at 600.
    Bold,
}

/// What asking for a semibold face of a family comes to: the weight to ask for, and
/// whether that answer is settled and kept for the family.
///
/// `named` is whether the font names a family (a generic family is left to the
/// fallback); `cached` is the answer kept from an earlier request; `has_semibold_face`
/// is whether the font database holds a face of the family at 600, or `None` when the
/// database could not be looked at without waiting.
pub open spec fn semibold_answer(
    named: bool,
    cached: Option<SemiboldWeight>,
    has_semibold_face: Option<bool>,
) -> (SemiboldWeight, bool) {
    if !named {
        (SemiboldWeight::Semibold, false)
    } else if cached is Some {
        (cached->0, false)
    } else {
        match has_semibold_face {
            None => (SemiboldWeight::Semibold, false),
            Some(true) => (SemiboldWeight::Semibold, true),
            Some(false) => (SemiboldWeight::Bold, true),
        }
    }
}

/// Weight 600 if the family has a face at 600, and 700 if it does not; the second value
/// says whether to keep the answer for the family.
///
/// The text shaper does not remember a failed match: a family with no face at the
/// requested weight makes it walk the whole font database on every request. Asking for
/// 700 asks for the face the fallback settles on anyway, by weight distance, so this
/// changes nothing that is drawn. The database is only looked at when it is free: the
/// question is asked from layout, while the text pipeline may hold it, and is simply
/// asked again next time.
pub fn semibold_weight(
    named: bool,
    cached: Option<SemiboldWeight>,
    has_semibold_face: Option<bool>,
) -> (r: (SemiboldWeight, bool))
    ensures
        r == semibold_answer(named, cached, has_semibold_face),
{
    if !named {
        return (SemiboldWeight::Semibold, false);
    }
    if let Some(weight) = cached {
        return (weight, false);
    }
    let has_semibold = match has_semibold_face {
        Some(found) => found,
        None => return (SemiboldWeight::Semibold, false),
    };
    let weight = if has_semibold {
        SemiboldWeight::Semibold
    } else {
        SemiboldWeight::Bold
    };
    (weight, true)
}

/// Only the monospace preset draws from the monospace font; the default, light,
/// semibold and bold presets all draw from the interface font.
pub proof fn lemma_only_mono_is_monospace(p: FontPreset)
    ensures
        preset_family(p) == Family::Monospace <==> p == FontPreset::Mono,
        preset_family(p) == Family::Interface <==> p != FontPreset::Mono,
{
}

/// The weight each preset asks for: light and bold as named; the default and the
/// monospace presets the weight their configured font has; semibold 600 where the
/// family has such a face and 700 where it does not.
pub proof fn lemma_preset_weights(
    p: FontPreset,
    interface: Weight,
    monospace: Weight,
    semibold: SemiboldWeight,
)
    ensures
        p == FontPreset::Light ==> preset_weight(p, interface, monospace, semibold) == Weight::Light,
        p == FontPreset::Bold ==> preset_weight(p, interface, monospace, semibold) == Weight::Bold,
        p == FontPreset::Default ==> preset_weight(p, interface, monospace, semibold) == interface,
        p == FontPreset::Mono ==> preset_weight(p, interface, monospace, semibold) == monospace,
        p == FontPreset::Semibold ==> preset_weight(p, interface, monospace, semibold) == if semibold
            == SemiboldWeight::Semibold {
            Weight::Semibold
        } else {
            Weight::Bold
        },
{
}

/// Asking for a semibold face: a generic family gets 600, unsettled; a family with an
/// answer kept gets that answer, unsettled again; otherwise a free font database settles
/// it - 600 if the family has such a face, 700 if not - and a busy one gets 600,
/// unsettled, so that the question is asked again.
pub proof fn lemma_semibold_answers(
    named: bool,
    cached: Option<SemiboldWeight>,
    has_semibold_face: Option<bool>,
)
    ensures
        !named ==> semibold_answer(named, cached, has_semibold_face) == (SemiboldWeight::Semibold, false),
        named && cached is Some ==> semibold_answer(named, cached, has_semibold_face) == (cached->0, false),
        named && cached is None ==> semibold_answer(named, cached, has_semibold_face) == match has_semibold_face {
            Some(true) => (SemiboldWeight::Semibold, true),
            Some(false) => (SemiboldWeight::Bold, true),
            None => (SemiboldWeight::Semibold, false),
        },
        semibold_answer(named, cached, has_semibold_face).1 ==> named && cached is None && has_semibold_face is Some,
{
}

} // verus!
