//! Difficulty levels and the plain-value color each one is shown with.

use vstd::prelude::*;

verus! {

/// An RGBA color, one byte per channel. The renderer converts this to its own
/// color type; the library only states which exact channels each difficulty
/// maps to.
#[derive(Clone, Copy, Debug, PartialEq, Eq, Structural)]
pub struct Rgba {
    pub r: u8,
    pub g: u8,
    pub b: u8,
    pub a: u8,
}

/// The word-list difficulty, chosen once per game.
#[derive(Clone, Copy, Debug, PartialEq, Eq, Structural)]
pub enum Difficulty {
    Easy,
    Medium,
    Hard,
}

impl Difficulty {
    /// Parses a difficulty from its button label. Only the three labels that
    /// the selection screen shows are ever passed in.
    pub fn from_string(s: &str) -> (d: Difficulty)
        requires
            s@ == "easy"@ || s@ == "medium"@ || s@ == "hard"@,
        ensures
            s@ == "easy"@ ==> d == Difficulty::Easy,
            s@ == "medium"@ ==> d == Difficulty::Medium,
            s@ == "hard"@ ==> d == Difficulty::Hard,
    {
        proof {
            reveal_strlit("easy");
            reveal_strlit("medium");
            reveal_strlit("hard");
        }
        let c = s.get_char(0);
        if c == 'e' {
            Difficulty::Easy
        } else if c == 'm' {
            Difficulty::Medium
        } else {
            Difficulty::Hard
        }
    }

    /// The label drawn on this difficulty's selection button.
    pub fn as_str(&self) -> (r: &str)
        ensures
            *self == Difficulty::Easy ==> r@ == "easy"@,
            *self == Difficulty::Medium ==> r@ == "medium"@,
            *self == Difficulty::Hard ==> r@ == "hard"@,
    {
        match *self {
            Difficulty::Easy => "easy",
            Difficulty::Medium => "medium",
            Difficulty::Hard => "hard",
        }
    }

    /// The button color for this difficulty: a muted green, yellow or red.
    pub fn as_color(&self) -> (c: Rgba)
        ensures
            *self == Difficulty::Easy ==> c == (Rgba { r: 123, g: 119, b: 86, a: 255 }),
            *self == Difficulty::Medium ==> c == (Rgba { r: 156, g: 119, b: 86, a: 255 }),
            *self == Difficulty::Hard ==> c == (Rgba { r: 156, g: 85, b: 86, a: 255 }),
    {
        match *self {
            Difficulty::Easy => Rgba { r: 123, g: 119, b: 86, a: 255 },
            Difficulty::Medium => Rgba { r: 156, g: 119, b: 86, a: 255 },
            Difficulty::Hard => Rgba { r: 156, g: 85, b: 86, a: 255 },
        }
    }
}

} // verus!
