use terminal_font::decimal::decimal_string;
use terminal_font::BackgroundColor;
use terminal_font::Color;
use terminal_font::EscapeSequence;
use terminal_font::Style;

#[test]
fn decimal_one_digit() {
    assert_eq!(decimal_string(0), "0");
    assert_eq!(decimal_string(7), "7");
    assert_eq!(decimal_string(9), "9");
}

#[test]
fn decimal_two_digits() {
    assert_eq!(decimal_string(10), "10");
    assert_eq!(decimal_string(42), "42");
    assert_eq!(decimal_string(99), "99");
}

#[test]
fn decimal_three_digits() {
    assert_eq!(decimal_string(100), "100");
    assert_eq!(decimal_string(160), "160");
    assert_eq!(decimal_string(255), "255");
}

#[test]
fn named_foreground_colors() {
    let cases: Vec<(Color, &str)> = vec![
        (Color::Black, "\x1b[30m"),
        (Color::Red, "\x1b[31m"),
        (Color::Green, "\x1b[32m"),
        (Color::Yellow, "\x1b[33m"),
        (Color::Blue, "\x1b[34m"),
        (Color::Magenta, "\x1b[35m"),
        (Color::Cyan, "\x1b[36m"),
        (Color::White, "\x1b[37m"),
        (Color::Default, "\x1b[39m"),
        (Color::BrightBlack, "\x1b[90m"),
        (Color::BrightRed, "\x1b[91m"),
        (Color::BrightGreen, "\x1b[92m"),
        (Color::BrightYellow, "\x1b[93m"),
        (Color::BrightBlue, "\x1b[94m"),
        (Color::BrightMagenta, "\x1b[95m"),
        (Color::BrightCyan, "\x1b[96m"),
        (Color::BrightWhite, "\x1b[97m"),
    ];
    for (color, expected) in cases {
        assert_eq!(color.escape_sequence(), expected);
    }
}

#[test]
fn named_background_colors() {
    let cases: Vec<(BackgroundColor, &str)> = vec![
        (BackgroundColor::Black, "\x1b[40m"),
        (BackgroundColor::Red, "\x1b[41m"),
        (BackgroundColor::Green, "\x1b[42m"),
        (BackgroundColor::Yellow, "\x1b[43m"),
        (BackgroundColor::Blue, "\x1b[44m"),
        (BackgroundColor::Magenta, "\x1b[45m"),
        (BackgroundColor::Cyan, "\x1b[46m"),
        (BackgroundColor::White, "\x1b[47m"),
        (BackgroundColor::Default, "\x1b[49m"),
        (BackgroundColor::BrightBlack, "\x1b[100m"),
        (BackgroundColor::BrightRed, "\x1b[101m"),
        (BackgroundColor::BrightGreen, "\x1b[102m"),
        (BackgroundColor::BrightYellow, "\x1b[103m"),
        (BackgroundColor::BrightBlue, "\x1b[104m"),
        (BackgroundColor::BrightMagenta, "\x1b[105m"),
        (BackgroundColor::BrightCyan, "\x1b[106m"),
        (BackgroundColor::BrightWhite, "\x1b[107m"),
    ];
    for (color, expected) in cases {
        assert_eq!(color.escape_sequence(), expected);
    }
}

#[test]
fn eight_bit_colors() {
    assert_eq!(Color::EightBit(160).escape_sequence(), "\x1b[38;5;160m");
    assert_eq!(BackgroundColor::EightBit(160).escape_sequence(), "\x1b[48;5;160m");
}

#[test]
fn eight_bit_color_bounds() {
    assert_eq!(Color::EightBit(0).escape_sequence(), "\x1b[38;5;0m");
    assert_eq!(Color::EightBit(255).escape_sequence(), "\x1b[38;5;255m");
    assert_eq!(BackgroundColor::EightBit(0).escape_sequence(), "\x1b[48;5;0m");
    assert_eq!(BackgroundColor::EightBit(255).escape_sequence(), "\x1b[48;5;255m");
}

#[test]
fn twenty_four_bit_colors() {
    assert_eq!(Color::TwentyFourBit(122, 122, 0).escape_sequence(), "\x1b[38;2;122;122;0m");
    assert_eq!(
        BackgroundColor::TwentyFourBit(122, 122, 0).escape_sequence(),
        "\x1b[48;2;122;122;0m"
    );
}

#[test]
fn twenty_four_bit_color_bounds() {
    assert_eq!(Color::TwentyFourBit(0, 0, 0).escape_sequence(), "\x1b[38;2;0;0;0m");
    assert_eq!(Color::TwentyFourBit(255, 255, 255).escape_sequence(), "\x1b[38;2;255;255;255m");
}

#[test]
fn styles_render() {
    assert_eq!(Style::Bold.escape_sequence(), "\x1b[1m");
    assert_eq!(Style::Dim.escape_sequence(), "\x1b[2m");
    assert_eq!(Style::Italic.escape_sequence(), "\x1b[3m");
    assert_eq!(Style::Underline.escape_sequence(), "\x1b[4m");
    assert_eq!(Style::Blinking.escape_sequence(), "\x1b[5m");
    assert_eq!(Style::Inverse.escape_sequence(), "\x1b[7m");
    assert_eq!(Style::Hidden.escape_sequence(), "\x1b[8m");
    assert_eq!(Style::Strikethrough.escape_sequence(), "\x1b[9m");
}

#[test]
fn default_style_renders_nothing() {
    assert_eq!(Style::Default.escape_sequence(), "");
}

#[test]
fn default_values() {
    assert_eq!(Color::default().escape_sequence(), "\x1b[39m");
    assert_eq!(BackgroundColor::default().escape_sequence(), "\x1b[49m");
    assert_eq!(Style::default().escape_sequence(), "");
}
