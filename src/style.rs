//! How a workspace button looks, chosen from the workspace's visibility and focus.
use vstd::prelude::*;

use crate::color::{dark_text, light_text, ColorScheme, Rgba};

verus! {

/// The image drawn behind a workspace button's label.
#[derive(Clone, Copy, Debug, PartialEq, Eq, Structural)]
pub enum Backdrop {
    /// The workspace is visible and holds the input focus.
    Accent,
    /// The workspace is visible but not focused (shown on another output).
    Highlight,
    /// The workspace is not visible.
    Plain,
}

impl Backdrop {
    pub open spec fn spec_image_path(self) -> Seq<char> {
        match self {
            Backdrop::Accent => "images/purple.png"@,
            Backdrop::Highlight => "images/selection.png"@,
            Backdrop::Plain => "images/background.png"@,
        }
    }

    /// The asset path of the backdrop's image.
    pub fn image_path(&self) -> (p: &'static str)
        ensures
            p@ == self.spec_image_path(),
    {
        match self {
            Backdrop::Accent => "images/purple.png",
            Backdrop::Highlight => "images/selection.png",
            Backdrop::Plain => "images/background.png",
        }
    }
}

/// A backdrop image together with the color of the label drawn on it.
#[derive(Clone, Copy, Debug, PartialEq, Eq, Structural)]
pub struct Style {
    pub backdrop: Backdrop,
    pub text_color: Rgba,
}

/// The style of a workspace that is `visible` and `focused` or not; total over all four
/// combinations, with focus mattering only for a visible workspace.
pub open spec fn style_of(visible: bool, focused: bool) -> Style {
    if visible && focused {
        Style { backdrop: Backdrop::Accent, text_color: dark_text() }
    } else if visible {
        Style { backdrop: Backdrop::Highlight, text_color: light_text() }
    } else {
        Style { backdrop: Backdrop::Plain, text_color: light_text() }
    }
}

/// Chooses the style of a workspace button.
pub fn select_style(visible: bool, focused: bool) -> (s: Style)
    ensures
        s == style_of(visible, focused),
{
    if visible && focused {
        Style { backdrop: Backdrop::Accent, text_color: ColorScheme::black() }
    } else if visible {
        Style { backdrop: Backdrop::Highlight, text_color: ColorScheme::foreground() }
    } else {
        Style { backdrop: Backdrop::Plain, text_color: ColorScheme::foreground() }
    }
}

/// A hidden workspace looks the same whether or not it holds the focus.
pub proof fn lemma_hidden_style_ignores_focus()
    ensures
        style_of(false, true) == style_of(false, false),
        style_of(false, false).backdrop == Backdrop::Plain,
        style_of(false, false).text_color == light_text(),
{
}

} // verus!
