//! The styles the interface's widgets can take.
use vstd::prelude::*;

verus! {

/// Styles of a button.
#[derive(Debug, Clone, Copy, PartialEq, Eq, Structural)]
pub enum Button {
    Primary,
    Cancel,
    Hyperlink,
    HyperlinkInverted,
    Unavailable,
    Entry,
    Start,
    Delete,
}

impl Default for Button {
    fn default() -> (r: Self)
        ensures
            r == Button::Primary,
    {
        Button::Primary
    }
}

/// Styles of a check box.
#[derive(Debug, Clone, Copy)]
pub enum CheckBox {
    Normal,
    Inverted,
}

impl Default for CheckBox {
    fn default() -> (r: Self)
        ensures
            r == CheckBox::Normal,
    {
        CheckBox::Normal
    }
}

/// Styles of the application window.
#[derive(Debug, Clone, Copy)]
pub enum Application {
    Default,
}

impl Default for Application {
    fn default() -> (r: Self)
        ensures
            r == Application::Default,
    {
        Application::Default
    }
}

/// Styles of a container.
#[derive(Debug, Clone, Copy)]
pub enum Container {
    Invisible,
    Frame,
    Black,
}

impl Default for Container {
    fn default() -> (r: Self)
        ensures
            r == Container::Invisible,
    {
        Container::Invisible
    }
}

/// Styles of a pick list.
#[derive(Debug, Clone, Copy)]
pub enum PickList {
    Default,
}

impl Default for PickList {
    fn default() -> (r: Self)
        ensures
            r == PickList::Default,
    {
        PickList::Default
    }
}

/// Styles of a rule.
#[derive(Clone, Copy)]
pub enum Rule {
    Default,
}

impl Default for Rule {
    fn default() -> (r: Self)
        ensures
            r == Rule::Default,
    {
        Rule::Default
    }
}

/// Styles of a progress bar.
#[derive(Debug, Clone, Copy)]
pub enum ProgressBar {
    Default,
}

impl Default for ProgressBar {
    fn default() -> (r: Self)
        ensures
            r == ProgressBar::Default,
    {
        ProgressBar::Default
    }
}

/// Styles of a slider.
#[derive(Debug)]
pub enum Style {
    Default,
}

impl Default for Style {
    fn default() -> (r: Self)
        ensures
            r == Style::Default,
    {
        Style::Default
    }
}

/// Styles of a text input.
#[derive(Debug, Clone, Copy)]
pub enum TextInput {
    Default,
}

impl Default for TextInput {
    fn default() -> (r: Self)
        ensures
            r == TextInput::Default,
    {
        TextInput::Default
    }
}

} // verus!
