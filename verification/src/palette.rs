//! The named colours that recur across the screens.

use crate::style::Color;
use vstd::prelude::*;

verus! {

/// Low-priority body text and footers.
#[verifier::allow_in_spec]
pub fn dim_text() -> Color
    returns
        Color::Rgb(110, 110, 130),
{
    Color::Rgb(110, 110, 130)
}

/// Faint secondary text: captions, prompt previews, the body of a queued card.
#[verifier::allow_in_spec]
pub fn faint_text() -> Color
    returns
        Color::Rgb(180, 180, 200),
{
    Color::Rgb(180, 180, 200)
}

/// Icons and prefixes ahead of labels in popup and card bodies.
#[verifier::allow_in_spec]
pub fn muted_text() -> Color
    returns
        Color::Rgb(100, 100, 120),
{
    Color::Rgb(100, 100, 120)
}

/// Inline labels.
#[verifier::allow_in_spec]
pub fn label_gray() -> Color
    returns
        Color::Rgb(150, 150, 170),
{
    Color::Rgb(150, 150, 170)
}

/// Card footers and queued-merge glyphs.
#[verifier::allow_in_spec]
pub fn meta_gray() -> Color
    returns
        Color::Rgb(110, 120, 135),
{
    Color::Rgb(110, 120, 135)
}

/// Skip verdicts, decision-tree separators, scroll information.
#[verifier::allow_in_spec]
pub fn gray_80() -> Color
    returns
        Color::Rgb(80, 80, 90),
{
    Color::Rgb(80, 80, 90)
}

/// Dividers and the borders of unfocused cards.
#[verifier::allow_in_spec]
pub fn sep_gray() -> Color
    returns
        Color::Rgb(60, 60, 70),
{
    Color::Rgb(60, 60, 70)
}

/// Diff context and tail entries.
#[verifier::allow_in_spec]
pub fn context_gray() -> Color
    returns
        Color::Rgb(160, 160, 170),
{
    Color::Rgb(160, 160, 170)
}

/// The working directory, the note icon, the selected to-do marker.
#[verifier::allow_in_spec]
pub fn accent_blue() -> Color
    returns
        Color::Rgb(180, 200, 230),
{
    Color::Rgb(180, 200, 230)
}

/// Planning and thinking.
#[verifier::allow_in_spec]
pub fn purple() -> Color
    returns
        Color::Rgb(170, 140, 210),
{
    Color::Rgb(170, 140, 210)
}

/// Fallback and video bodies, artifact counts.
#[verifier::allow_in_spec]
pub fn faint_purple_gray() -> Color
    returns
        Color::Rgb(160, 160, 180),
{
    Color::Rgb(160, 160, 180)
}

/// Idle and overflow dots, narrow-board hints.
#[verifier::allow_in_spec]
pub fn dot_idle() -> Color
    returns
        Color::Rgb(140, 140, 160),
{
    Color::Rgb(140, 140, 160)
}

/// Backlog counts, arrows and title.
#[verifier::allow_in_spec]
pub fn backlog_blue() -> Color
    returns
        Color::Rgb(120, 140, 200),
{
    Color::Rgb(120, 140, 200)
}

/// Task tag badges.
#[verifier::allow_in_spec]
pub fn tag_slate() -> Color
    returns
        Color::Rgb(150, 170, 200),
{
    Color::Rgb(150, 170, 200)
}

/// The dark band behind the tab strip and the project chip strip.
#[verifier::allow_in_spec]
pub fn band_bg() -> Color
    returns
        Color::Rgb(20, 20, 28),
{
    Color::Rgb(20, 20, 28)
}

/// A colour by its red, green and blue parts.
#[verifier::allow_in_spec]
pub fn rgb(r: u8, g: u8, b: u8) -> Color
    returns
        Color::Rgb(r, g, b),
{
    Color::Rgb(r, g, b)
}

} // verus!
