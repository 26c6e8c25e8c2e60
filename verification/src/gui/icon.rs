//! The glyphs of the icon font, one per icon the interface shows.
use vstd::prelude::*;

verus! {

/// The glyph of the folder icon.
pub fn folder() -> (r: char)
    ensures
        r == '\u{f3d1}',
{
    '\u{f3d1}'
}

/// The glyph of the download icon.
pub fn download() -> (r: char)
    ensures
        r == '\u{f30a}',
{
    '\u{f30a}'
}

/// The glyph of the play icon.
pub fn play() -> (r: char)
    ensures
        r == '\u{f4f4}',
{
    '\u{f4f4}'
}

/// The glyph of the stop icon.
pub fn stop() -> (r: char)
    ensures
        r == '\u{f4f5}',
{
    '\u{f4f5}'
}

/// The glyph of the pause icon.
pub fn pause() -> (r: char)
    ensures
        r == '\u{f4c3}',
{
    '\u{f4c3}'
}

/// The glyph of the repeat icon.
pub fn repeat() -> (r: char)
    ensures
        r == '\u{f813}',
{
    '\u{f813}'
}

/// The glyph of the github icon.
pub fn github() -> (r: char)
    ensures
        r == '\u{f3ed}',
{
    '\u{f3ed}'
}

/// The glyph of the git icon.
pub fn git() -> (r: char)
    ensures
        r == '\u{f69d}',
{
    '\u{f69d}'
}

/// The glyph of the question icon.
pub fn question() -> (r: char)
    ensures
        r == '\u{f504}',
{
    '\u{f504}'
}

/// The glyph of the warning icon.
pub fn warning() -> (r: char)
    ensures
        r == '\u{f33a}',
{
    '\u{f33a}'
}

/// The glyph of the error icon.
pub fn error() -> (r: char)
    ensures
        r == '\u{f622}',
{
    '\u{f622}'
}

/// The glyph of the filter icon.
pub fn filter() -> (r: char)
    ensures
        r == '\u{f3c4}',
{
    '\u{f3c4}'
}

/// The glyph of the save icon.
pub fn save() -> (r: char)
    ensures
        r == '\u{e802}',
{
    '\u{e802}'
}

/// The glyph of the calendar icon.
pub fn calendar() -> (r: char)
    ensures
        r == '\u{e803}',
{
    '\u{e803}'
}

} // verus!
