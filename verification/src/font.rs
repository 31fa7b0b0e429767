//! Colors, text styles, and the builder that composes them into one
//! ANSI SGR escape string.
//!
//! Every rendered sequence has the shape `\x1b[<params>m`. A foreground
//! color, a background color, and a style each render to one such
//! sequence; the builder concatenates a background sequence, the
//! accumulated style sequences, and a foreground sequence, in that order.

use vstd::prelude::*;
use vstd::string::StringExecFns;

use crate::decimal::decimal_seq;
use crate::decimal::decimal_string;

verus! {

/// A rendered font marker: a concatenation of SGR escape sequences.
pub type Font = String;

/// A complete SGR escape sequence: the CSI introducer `\x1b[`, the
/// parameter characters, and the final byte `m`.
pub open spec fn esc_seq(params: Seq<char>) -> Seq<char> {
    "\x1b["@ + params + "m"@
}

/// A value that renders itself as a complete SGR escape string.
pub trait EscapeSequence {
    /// The exact character sequence that `escape_sequence` returns.
    spec fn spec_escape_sequence(&self) -> Seq<char>;

    /// Renders this value as its SGR escape string.
    fn escape_sequence(&self) -> (r: String)
        ensures
            r@ == self.spec_escape_sequence(),
    ;
}

/// `\x1b[<code>m`: a sequence with a single numeric parameter.
fn single_code_sequence(code: u8) -> (r: String)
    ensures
        r@ == esc_seq(decimal_seq(code as nat)),
{
    let mut s = "\x1b[".to_owned();
    s.append(decimal_string(code).as_str());
    s.append("m");
    s
}

/// `\x1b[<prefix><v>m`: a sequence whose parameters are a fixed prefix
/// followed by one numeric parameter, as in 8-bit indexed color.
fn indexed_sequence(prefix: &str, v: u8) -> (r: String)
    ensures
        r@ == esc_seq(prefix@ + decimal_seq(v as nat)),
{
    let mut s = "\x1b[".to_owned();
    s.append(prefix);
    s.append(decimal_string(v).as_str());
    s.append("m");
    proof {
        assert(s@ =~= esc_seq(prefix@ + decimal_seq(v as nat)));
    }
    s
}

/// `\x1b[<prefix><r>;<g>;<b>m`: a sequence whose parameters are a fixed
/// prefix followed by three numeric components, as in 24-bit color.
fn rgb_sequence(prefix: &str, r: u8, g: u8, b: u8) -> (res: String)
    ensures
        res@ == esc_seq(
            prefix@ + decimal_seq(r as nat) + ";"@ + decimal_seq(g as nat) + ";"@ + decimal_seq(
                b as nat,
            ),
        ),
{
    let mut s = "\x1b[".to_owned();
    s.append(prefix);
    s.append(decimal_string(r).as_str());
    s.append(";");
    s.append(decimal_string(g).as_str());
    s.append(";");
    s.append(decimal_string(b).as_str());
    s.append("m");
    proof {
        assert(s@ =~= esc_seq(
            prefix@ + decimal_seq(r as nat) + ";"@ + decimal_seq(g as nat) + ";"@ + decimal_seq(
                b as nat,
            ),
        ));
    }
    s
}

/// A foreground color: the 8 standard colors (SGR 30-37), their bright
/// variants (90-97), the terminal default (39), an 8-bit indexed color
/// (38;5;v), or a 24-bit color (38;2;r;g;b).
pub enum Color {
    Black,
    Red,
    Green,
    Yellow,
    Blue,
    Magenta,
    Cyan,
    White,
    Default,
    BrightBlack,
    BrightRed,
    BrightGreen,
    BrightYellow,
    BrightBlue,
    BrightMagenta,
    BrightCyan,
    BrightWhite,
    EightBit(u8),
    TwentyFourBit(u8, u8, u8),
}

/// The escape sequence for a foreground color. The per-variant numeric
/// codes here are the single source of truth for the foreground table.
pub open spec fn fg_seq(c: Color) -> Seq<char> {
    match c {
        Color::Black => esc_seq(decimal_seq(30)),
        Color::Red => esc_seq(decimal_seq(31)),
        Color::Green => esc_seq(decimal_seq(32)),
        Color::Yellow => esc_seq(decimal_seq(33)),
        Color::Blue => esc_seq(decimal_seq(34)),
        Color::Magenta => esc_seq(decimal_seq(35)),
        Color::Cyan => esc_seq(decimal_seq(36)),
        Color::White => esc_seq(decimal_seq(37)),
        Color::Default => esc_seq(decimal_seq(39)),
        Color::BrightBlack => esc_seq(decimal_seq(90)),
        Color::BrightRed => esc_seq(decimal_seq(91)),
        Color::BrightGreen => esc_seq(decimal_seq(92)),
        Color::BrightYellow => esc_seq(decimal_seq(93)),
        Color::BrightBlue => esc_seq(decimal_seq(94)),
        Color::BrightMagenta => esc_seq(decimal_seq(95)),
        Color::BrightCyan => esc_seq(decimal_seq(96)),
        Color::BrightWhite => esc_seq(decimal_seq(97)),
        Color::EightBit(v) => esc_seq("38;5;"@ + decimal_seq(v as nat)),
        Color::TwentyFourBit(r, g, b) => esc_seq(
            "38;2;"@ + decimal_seq(r as nat) + ";"@ + decimal_seq(g as nat) + ";"@ + decimal_seq(
                b as nat,
            ),
        ),
    }
}

impl Default for Color {
    /// The default foreground color is the terminal default.
    fn default() -> (r: Self)
        ensures
            r == Color::Default,
    {
        Color::Default
    }
}

impl EscapeSequence for Color {
    open spec fn spec_escape_sequence(&self) -> Seq<char> {
        fg_seq(*self)
    }

    fn escape_sequence(&self) -> (r: String) {
        match self {
            Color::Black => single_code_sequence(30),
            Color::Red => single_code_sequence(31),
            Color::Green => single_code_sequence(32),
            Color::Yellow => single_code_sequence(33),
            Color::Blue => single_code_sequence(34),
            Color::Magenta => single_code_sequence(35),
            Color::Cyan => single_code_sequence(36),
            Color::White => single_code_sequence(37),
            Color::Default => single_code_sequence(39),
            Color::BrightBlack => single_code_sequence(90),
            Color::BrightRed => single_code_sequence(91),
            Color::BrightGreen => single_code_sequence(92),
            Color::BrightYellow => single_code_sequence(93),
            Color::BrightBlue => single_code_sequence(94),
            Color::BrightMagenta => single_code_sequence(95),
            Color::BrightCyan => single_code_sequence(96),
            Color::BrightWhite => single_code_sequence(97),
            Color::EightBit(v) => indexed_sequence("38;5;", *v),
            Color::TwentyFourBit(r, g, b) => rgb_sequence("38;2;", *r, *g, *b),
        }
    }
}

/// A background color: the 8 standard colors (SGR 40-47), their bright
/// variants (100-107), the terminal default (49), an 8-bit indexed color
/// (48;5;v), or a 24-bit color (48;2;r;g;b). A separate variant set from
/// [`Color`] because the numeric codes and prefixes differ.
pub enum BackgroundColor {
    Black,
    Red,
    Green,
    Yellow,
    Blue,
    Magenta,
    Cyan,
    White,
    Default,
    BrightBlack,
    BrightRed,
    BrightGreen,
    BrightYellow,
    BrightBlue,
    BrightMagenta,
    BrightCyan,
    BrightWhite,
    EightBit(u8),
    TwentyFourBit(u8, u8, u8),
}

/// The escape sequence for a background color. The per-variant numeric
/// codes here are the single source of truth for the background table.
pub open spec fn bg_seq(c: BackgroundColor) -> Seq<char> {
    match c {
        BackgroundColor::Black => esc_seq(decimal_seq(40)),
        BackgroundColor::Red => esc_seq(decimal_seq(41)),
        BackgroundColor::Green => esc_seq(decimal_seq(42)),
        BackgroundColor::Yellow => esc_seq(decimal_seq(43)),
        BackgroundColor::Blue => esc_seq(decimal_seq(44)),
        BackgroundColor::Magenta => esc_seq(decimal_seq(45)),
        BackgroundColor::Cyan => esc_seq(decimal_seq(46)),
        BackgroundColor::White => esc_seq(decimal_seq(47)),
        BackgroundColor::Default => esc_seq(decimal_seq(49)),
        BackgroundColor::BrightBlack => esc_seq(decimal_seq(100)),
        BackgroundColor::BrightRed => esc_seq(decimal_seq(101)),
        BackgroundColor::BrightGreen => esc_seq(decimal_seq(102)),
        BackgroundColor::BrightYellow => esc_seq(decimal_seq(103)),
        BackgroundColor::BrightBlue => esc_seq(decimal_seq(104)),
        BackgroundColor::BrightMagenta => esc_seq(decimal_seq(105)),
        BackgroundColor::BrightCyan => esc_seq(decimal_seq(106)),
        BackgroundColor::BrightWhite => esc_seq(decimal_seq(107)),
        BackgroundColor::EightBit(v) => esc_seq("48;5;"@ + decimal_seq(v as nat)),
        BackgroundColor::TwentyFourBit(r, g, b) => esc_seq(
            "48;2;"@ + decimal_seq(r as nat) + ";"@ + decimal_seq(g as nat) + ";"@ + decimal_seq(
                b as nat,
            ),
        ),
    }
}

impl Default for BackgroundColor {
    /// The default background color is the terminal default.
    fn default() -> (r: Self)
        ensures
            r == BackgroundColor::Default,
    {
        BackgroundColor::Default
    }
}

impl EscapeSequence for BackgroundColor {
    open spec fn spec_escape_sequence(&self) -> Seq<char> {
        bg_seq(*self)
    }

    fn escape_sequence(&self) -> (r: String) {
        match self {
            BackgroundColor::Black => single_code_sequence(40),
            BackgroundColor::Red => single_code_sequence(41),
            BackgroundColor::Green => single_code_sequence(42),
            BackgroundColor::Yellow => single_code_sequence(43),
            BackgroundColor::Blue => single_code_sequence(44),
            BackgroundColor::Magenta => single_code_sequence(45),
            BackgroundColor::Cyan => single_code_sequence(46),
            BackgroundColor::White => single_code_sequence(47),
            BackgroundColor::Default => single_code_sequence(49),
            BackgroundColor::BrightBlack => single_code_sequence(100),
            BackgroundColor::BrightRed => single_code_sequence(101),
            BackgroundColor::BrightGreen => single_code_sequence(102),
            BackgroundColor::BrightYellow => single_code_sequence(103),
            BackgroundColor::BrightBlue => single_code_sequence(104),
            BackgroundColor::BrightMagenta => single_code_sequence(105),
            BackgroundColor::BrightCyan => single_code_sequence(106),
            BackgroundColor::BrightWhite => single_code_sequence(107),
            BackgroundColor::EightBit(v) => indexed_sequence("48;5;", *v),
            BackgroundColor::TwentyFourBit(r, g, b) => rgb_sequence("48;2;", *r, *g, *b),
        }
    }
}

/// A text style. Equality is by variant alone; styles carry no data.
#[derive(Clone, Copy, PartialEq, Eq, Structural)]
pub enum Style {
    Default,
    Bold,
    Dim,
    Italic,
    Underline,
    Blinking,
    Inverse,
    Hidden,
    Strikethrough,
}

/// The escape sequence for a style. The per-variant numeric codes here
/// are the single source of truth for the style table. The default
/// style is a no-op and renders no code at all: there is no valid SGR
/// parameter for "no style", so nothing is emitted.
pub open spec fn style_seq(s: Style) -> Seq<char> {
    match s {
        Style::Default => Seq::<char>::empty(),
        Style::Bold => esc_seq(decimal_seq(1)),
        Style::Dim => esc_seq(decimal_seq(2)),
        Style::Italic => esc_seq(decimal_seq(3)),
        Style::Underline => esc_seq(decimal_seq(4)),
        Style::Blinking => esc_seq(decimal_seq(5)),
        Style::Inverse => esc_seq(decimal_seq(7)),
        Style::Hidden => esc_seq(decimal_seq(8)),
        Style::Strikethrough => esc_seq(decimal_seq(9)),
    }
}

impl Default for Style {
    /// The default style is the no-op style.
    fn default() -> (r: Self)
        ensures
            r == Style::Default,
    {
        Style::Default
    }
}

impl EscapeSequence for Style {
    open spec fn spec_escape_sequence(&self) -> Seq<char> {
        style_seq(*self)
    }

    fn escape_sequence(&self) -> (r: String) {
        match self {
            Style::Default => String::new(),
            Style::Bold => single_code_sequence(1),
            Style::Dim => single_code_sequence(2),
            Style::Italic => single_code_sequence(3),
            Style::Underline => single_code_sequence(4),
            Style::Blinking => single_code_sequence(5),
            Style::Inverse => single_code_sequence(7),
            Style::Hidden => single_code_sequence(8),
            Style::Strikethrough => single_code_sequence(9),
        }
    }
}

/// Adds one style to an accumulated style list: appended at the end if
/// it is not yet present, otherwise the list is unchanged.
pub open spec fn add_style(ss: Seq<Style>, s: Style) -> Seq<Style> {
    if ss.contains(s) {
        ss
    } else {
        ss.push(s)
    }
}

/// Adds each style of `new` in order, by the single-style rule.
pub open spec fn add_styles(ss: Seq<Style>, new_styles: Seq<Style>) -> Seq<Style>
    decreases new_styles.len(),
{
    if new_styles.len() == 0 {
        ss
    } else {
        add_style(add_styles(ss, new_styles.drop_last()), new_styles.last())
    }
}

/// No style occurs twice in the list.
pub open spec fn distinct_styles(ss: Seq<Style>) -> bool {
    forall|i: int, j: int| 0 <= i < j < ss.len() ==> ss[i] != ss[j]
}

/// The concatenation of the escape sequences of the styles, in order.
pub open spec fn styles_seq(ss: Seq<Style>) -> Seq<char>
    decreases ss.len(),
{
    if ss.len() == 0 {
        Seq::<char>::empty()
    } else {
        styles_seq(ss.drop_last()) + style_seq(ss.last())
    }
}

fn contains_style(styles: &Vec<Style>, style: Style) -> (r: bool)
    ensures
        r == styles@.contains(style),
{
    let mut i: usize = 0;
    while i < styles.len()
        invariant
            i <= styles.len(),
            forall|k: int| 0 <= k < i ==> styles@[k] != style,
        decreases styles.len() - i,
    {
        if styles[i] == style {
            return true;
        }
        i += 1;
    }
    false
}

/// Accumulates a background color, a deduplicated ordered list of
/// styles, and a foreground color, then renders them as one string.
pub struct FontBuilder {
    background_color: BackgroundColor,
    font_styles: Vec<Style>,
    font_color: Color,
}

/// The string that `build` returns for this builder state: the rendered
/// background color, then each accumulated style, then the rendered
/// foreground color, concatenated with no separator.
pub open spec fn built_seq(b: FontBuilder) -> Seq<char> {
    bg_seq(b.spec_background_color()) + styles_seq(b.spec_styles()) + fg_seq(b.spec_font_color())
}

impl FontBuilder {
    /// The background color this builder will render.
    pub closed spec fn spec_background_color(&self) -> BackgroundColor {
        self.background_color
    }

    /// The accumulated styles this builder will render, in order.
    pub closed spec fn spec_styles(&self) -> Seq<Style> {
        self.font_styles@
    }

    /// The foreground color this builder will render.
    pub closed spec fn spec_font_color(&self) -> Color {
        self.font_color
    }

    /// A builder with default background, no styles, default foreground.
    pub fn new() -> (r: Self)
        ensures
            r.spec_background_color() == BackgroundColor::Default,
            r.spec_styles() == Seq::<Style>::empty(),
            r.spec_font_color() == Color::Default,
    {
        FontBuilder::default()
    }

    /// Replaces the background color; the last write wins.
    pub fn background_color(self, background_color: BackgroundColor) -> (r: Self)
        ensures
            r.spec_background_color() == background_color,
            r.spec_styles() == self.spec_styles(),
            r.spec_font_color() == self.spec_font_color(),
    {
        let mut b = self;
        b.background_color = background_color;
        b
    }

    /// Appends `style` to the accumulated styles if it is not already
    /// present; a style that is present is silently dropped, so the
    /// accumulated list stays free of duplicates.
    pub fn style(self, style: Style) -> (r: Self)
        ensures
            r.spec_background_color() == self.spec_background_color(),
            r.spec_styles() == add_style(self.spec_styles(), style),
            r.spec_font_color() == self.spec_font_color(),
            distinct_styles(self.spec_styles()) ==> distinct_styles(r.spec_styles()),
    {
        let mut b = self;
        if !contains_style(&b.font_styles, style) {
            b.font_styles.push(style);
        }
        proof {
            if distinct_styles(self.spec_styles()) {
                lemma_add_style_distinct(self.spec_styles(), style);
            }
        }
        b
    }

    /// Applies the single-style rule to each element of `styles` in
    /// order: duplicates within `styles` or already-present values are
    /// skipped, not re-ordered.
    pub fn styles(self, styles: Vec<Style>) -> (r: Self)
        ensures
            r.spec_background_color() == self.spec_background_color(),
            r.spec_styles() == add_styles(self.spec_styles(), styles@),
            r.spec_font_color() == self.spec_font_color(),
            distinct_styles(self.spec_styles()) ==> distinct_styles(r.spec_styles()),
    {
        let ghost orig = self;
        let mut b = self;
        let mut i: usize = 0;
        while i < styles.len()
            invariant
                i <= styles.len(),
                b.spec_background_color() == orig.spec_background_color(),
                b.spec_styles() == add_styles(orig.spec_styles(), styles@.take(i as int)),
                b.spec_font_color() == orig.spec_font_color(),
            decreases styles.len() - i,
        {
            proof {
                assert(styles@.take(i as int + 1).drop_last() =~= styles@.take(i as int));
                assert(styles@.take(i as int + 1).last() == styles@[i as int]);
            }
            b = b.style(styles[i]);
            i += 1;
        }
        proof {
            assert(styles@.take(styles@.len() as int) =~= styles@);
            if distinct_styles(orig.spec_styles()) {
                lemma_add_styles_distinct(orig.spec_styles(), styles@);
            }
        }
        b
    }

    /// Replaces the foreground color; the last write wins.
    pub fn font_color(self, font_color: Color) -> (r: Self)
        ensures
            r.spec_background_color() == self.spec_background_color(),
            r.spec_styles() == self.spec_styles(),
            r.spec_font_color() == font_color,
    {
        let mut b = self;
        b.font_color = font_color;
        b
    }

    /// Renders the accumulated configuration: background color first,
    /// then each style in accumulated order, then the foreground color.
    /// Reads the builder without changing it, so repeated calls return
    /// identical strings.
    pub fn build(&self) -> (r: Font)
        ensures
            r@ == built_seq(*self),
    {
        let mut font = self.background_color.escape_sequence();
        let mut i: usize = 0;
        while i < self.font_styles.len()
            invariant
                i <= self.font_styles.len(),
                font@ == bg_seq(self.spec_background_color()) + styles_seq(
                    self.spec_styles().take(i as int),
                ),
            decreases self.font_styles.len() - i,
        {
            let style_sequence = self.font_styles[i].escape_sequence();
            font.append(style_sequence.as_str());
            proof {
                let ss = self.spec_styles();
                assert(ss.take(i as int + 1).drop_last() =~= ss.take(i as int));
                assert(ss.take(i as int + 1).last() == ss[i as int]);
                assert(font@ =~= bg_seq(self.spec_background_color()) + styles_seq(
                    ss.take(i as int + 1),
                ));
            }
            i += 1;
        }
        proof {
            assert(self.spec_styles().take(self.spec_styles().len() as int) =~= self.spec_styles());
        }
        let fg = self.font_color.escape_sequence();
        font.append(fg.as_str());
        font
    }
}

impl Default for FontBuilder {
    /// An empty builder: default background, no styles, default
    /// foreground.
    fn default() -> (r: Self)
        ensures
            r.spec_background_color() == BackgroundColor::Default,
            r.spec_styles() == Seq::<Style>::empty(),
            r.spec_font_color() == Color::Default,
    {
        FontBuilder {
            background_color: BackgroundColor::Default,
            font_styles: Vec::new(),
            font_color: Color::Default,
        }
    }
}

/// Adding a style keeps the accumulated list free of duplicates.
pub proof fn lemma_add_style_distinct(ss: Seq<Style>, s: Style)
    requires
        distinct_styles(ss),
    ensures
        distinct_styles(add_style(ss, s)),
{
    if !ss.contains(s) {
        assert forall|i: int, j: int| 0 <= i < j < ss.push(s).len() implies ss.push(s)[i] != ss.push(
            s,
        )[j] by {
            if j < ss.len() {
            } else {
                assert(ss.push(s)[j] == s);
                assert(ss.push(s)[i] == ss[i]);
                assert(!ss.contains(s));
                assert(ss[i] != s);
            }
        }
    }
}

/// Adding a list of styles keeps the accumulated list free of
/// duplicates.
pub proof fn lemma_add_styles_distinct(ss: Seq<Style>, new_styles: Seq<Style>)
    requires
        distinct_styles(ss),
    ensures
        distinct_styles(add_styles(ss, new_styles)),
    decreases new_styles.len(),
{
    if new_styles.len() > 0 {
        lemma_add_styles_distinct(ss, new_styles.drop_last());
        lemma_add_style_distinct(add_styles(ss, new_styles.drop_last()), new_styles.last());
    }
}

/// Adding the same style twice is the same as adding it once: the
/// second addition leaves the accumulated list unchanged.
pub proof fn lemma_add_style_idempotent(ss: Seq<Style>, s: Style)
    ensures
        add_style(add_style(ss, s), s) == add_style(ss, s),
{
    if !ss.contains(s) {
        assert(ss.push(s)[ss.len() as int] == s);
        assert(ss.push(s).contains(s));
    }
}

/// The rendered string is a function of the builder state alone: any
/// two renderings of the same state are identical, so `build` may be
/// called repeatedly with the same result.
pub proof fn lemma_build_deterministic(b: FontBuilder, r1: Seq<char>, r2: Seq<char>)
    requires
        r1 == built_seq(b),
        r2 == built_seq(b),
    ensures
        r1 == r2,
{
}

} // verus!
