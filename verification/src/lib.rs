//! Builder for ANSI SGR escape sequences: foreground color, background
//! color, and text styles rendered as `\x1b[<params>m` strings.

pub mod decimal;
pub mod font;

pub use font::BackgroundColor;
pub use font::Color;
pub use font::EscapeSequence;
pub use font::Font;
pub use font::FontBuilder;
pub use font::Style;
