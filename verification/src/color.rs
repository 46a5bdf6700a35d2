use vstd::prelude::*;

verus! {

/// The fixed palette of logical colours. `Reset` stands for "no colour set".
#[derive(Clone, Copy, Debug, PartialEq, Eq, Structural)]
pub enum Color {
    Reset,
    Black,
    Red,
    Green,
    Yellow,
    Blue,
    Magenta,
    Cyan,
    Gray,
    DarkGray,
    LightRed,
    LightGreen,
    LightYellow,
    LightBlue,
    LightMagenta,
    LightCyan,
    White,
}

/// The colour in which runs of escaped characters are shown beside text of
/// colour `fg`: cyan beside magenta, light magenta beside anything else.
pub open spec fn highlight_of(fg: Color) -> Color {
    if fg == Color::Magenta {
        Color::Cyan
    } else {
        Color::LightMagenta
    }
}

/// The colour of a row's timestamp: the background where one is set, so that
/// it stands out on a coloured row, else the foreground.
pub open spec fn timestamp_color_of(fg: Color, bg: Color) -> Color {
    if bg != Color::Reset {
        bg
    } else {
        fg
    }
}

/// The colour for runs of escaped characters beside text of colour `fg`.
pub fn highlight_color(fg: Color) -> (c: Color)
    ensures
        c == highlight_of(fg),
{
    if fg == Color::Magenta {
        Color::Cyan
    } else {
        Color::LightMagenta
    }
}

/// The colour of the timestamp of a row with the given colours.
pub fn timestamp_color(fg: Color, bg: Color) -> (c: Color)
    ensures
        c == timestamp_color_of(fg, bg),
{
    if bg != Color::Reset {
        bg
    } else {
        fg
    }
}

} // verus!
