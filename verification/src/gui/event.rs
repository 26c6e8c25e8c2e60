//! Which window inputs the application acts on.
use vstd::prelude::*;

verus! {

/// A key, as far as the application tells keys apart.
#[derive(Debug, Clone, Copy, PartialEq, Eq, Structural)]
pub enum Key {
    Delete,
    S,
    Other,
}

/// An input the window receives, as far as the application looks at it;
/// windows are told apart by number.
#[derive(Debug, Clone)]
pub enum Input {
    /// A key was released, with the shift and command (control or ⌘)
    /// modifiers as they were.
    KeyReleased { key: Key, shift: bool, command: bool },
    FileDropped(u64, String),
    CloseRequested,
    FileHovered(u64, String),
    FilesHoveredLeft(u64),
    Closed(u64),
    Other,
}

/// What the application does about an input.
#[derive(Debug, Clone)]
pub enum Event {
    Clear,
    CloseRequested,
    Delete,
    FileDropped(u64, String),
    FileHovered(u64, String),
    FileHoveredLeft(u64),
    Closed(u64),
    Save,
    Start,
}

/// What the application does about `input`; `ignored` says that no widget
/// handled it. Delete, when no widget took it, clears every entry with
/// shift and deletes the selected ones without; command + S saves the
/// configuration; a file dropped where no widget took it is added; the
/// window events pass through; anything else is left alone.
pub fn filter(input: Input, ignored: bool) -> (r: Option<Event>)
    ensures
        match input {
            Input::KeyReleased { key, shift, command } => match key {
                Key::Delete => if ignored {
                    if shift {
                        r matches Some(Event::Clear)
                    } else {
                        r matches Some(Event::Delete)
                    }
                } else {
                    r is None
                },
                Key::S => if command {
                    r matches Some(Event::Save)
                } else {
                    r is None
                },
                Key::Other => r is None,
            },
            Input::FileDropped(id, path) => if ignored {
                r matches Some(Event::FileDropped(i, p)) && i == id && p@ == path@
            } else {
                r is None
            },
            Input::CloseRequested => r matches Some(Event::CloseRequested),
            Input::FileHovered(id, path) => r matches Some(Event::FileHovered(i, p)) && i == id && p@
                == path@,
            Input::FilesHoveredLeft(id) => r matches Some(Event::FileHoveredLeft(i)) && i == id,
            Input::Closed(id) => r matches Some(Event::Closed(i)) && i == id,
            Input::Other => r is None,
        },
{
    match input {
        Input::KeyReleased { key, shift, command } => match key {
            Key::Delete if ignored => {
                if shift {
                    // SHIFT + Delete clears the entries
                    Some(Event::Clear)
                } else {
                    // Delete will only delete the selected entries
                    Some(Event::Delete)
                }
            },
            // CTRL + S or ⌘ + S saves the current configuration
            Key::S if command => Some(Event::Save),
            _ => None,
        },
        Input::FileDropped(id, file) if ignored => Some(Event::FileDropped(id, file)),
        Input::CloseRequested => Some(Event::CloseRequested),
        Input::FileHovered(id, path) => Some(Event::FileHovered(id, path)),
        Input::FilesHoveredLeft(id) => Some(Event::FileHoveredLeft(id)),
        Input::Closed(id) => Some(Event::Closed(id)),
        _ => None,
    }
}

} // verus!
